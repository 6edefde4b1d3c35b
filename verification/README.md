# vk_rust_tui

A console messenger for VK with vim-like controls, split into a verified
library and a thin terminal program.

* `src/` — the library, verified with Verus:
  * `text` — character-level string utilities (trimming, searching,
    decimal text, UTF-8 byte lengths);
  * `auth` — normalising the pasted authorisation URL and extracting the
    access token; judging the answer to a token check;
  * `navigation` — modes, keys, and the input line editor (`typing`);
  * `config` — settings and default key bindings;
  * `json` — JSON values and the lookups the client makes;
  * `client` — conversations and messages;
  * `vk_api` — request addresses and reading the API's answers;
  * `ui` — the interface's state machine (`App::handle_input`), cursor and
    scrolling of the input box, and what each panel shows;
  * `test_client` — a stand-in service with generated chats and messages.
* `app/` — the terminal program: HTTP requests, the configuration file,
  the browser, key events and drawing.
* `tests/` — tests of the library.
