//! The interface's state and the decisions it takes: which chat is
//! selected, what a key press does, and what the input box shows.
//! Drawing on the terminal is left to the caller.
use vstd::prelude::*;
use crate::client::{dialog_view, Dialog, Message, MessageV};
use crate::config::{Config, KeyBindings};
use crate::navigation::{
    char_index_of_byte, is_byte_boundary, typed, typing,
    typing_allowed, Key, Mode,
};
use crate::text::{
    char_width_of, chars_of, int_digits, lemma_utf8_len_split,
    lemma_utf8_len_subrange_step, push_char, push_int, string_of_range, utf8_len,
};

verus! {

/// Messages requested per history load.
pub const MESSAGES_PER_PAGE: u32 = 20;

/// Number of line breaks in `s`.
pub open spec fn newline_count(s: Seq<char>) -> nat
    decreases s.len(),
{
    if s.len() == 0 {
        0
    } else {
        newline_count(s.drop_last()) + if s.last() == '\n' {
            1nat
        } else {
            0nat
        }
    }
}

/// Index at which the last line of `s` starts (just past its last line break).
pub open spec fn line_start(s: Seq<char>) -> int
    decreases s.len(),
{
    if s.len() == 0 {
        0
    } else if s.last() == '\n' {
        s.len() as int
    } else {
        line_start(s.drop_last())
    }
}

/// The cursor's character index, kept within the text.
pub open spec fn clamp_cursor(s: Seq<char>, cursor: int) -> int {
    if cursor <= s.len() {
        cursor
    } else {
        s.len() as int
    }
}

/// The line (counting from 0) on which the cursor stands; a cursor past the
/// end stands on the last line.
pub open spec fn cursor_line(s: Seq<char>, cursor: int) -> int {
    newline_count(s.take(clamp_cursor(s, cursor))) as int
}

/// The cursor's byte offset within its line.
pub open spec fn cursor_byte_in_line(s: Seq<char>, cursor: int) -> int {
    let c = clamp_cursor(s, cursor);
    utf8_len(s.subrange(line_start(s.take(c)), c)) as int
}

proof fn lemma_line_start_bound(s: Seq<char>)
    ensures
        0 <= line_start(s) <= s.len(),
    decreases s.len(),
{
    if s.len() > 0 {
        lemma_line_start_bound(s.drop_last());
    }
}

/// Line, line start and byte offset in the line of a cursor position `c`
/// that lies within the text.
fn locate_cursor(text: &str, v: &Vec<char>, c: usize) -> (r: (usize, usize, usize))
    requires
        v@ == text@,
        c <= v@.len(),
    ensures
        r.0 == newline_count(v@.take(c as int)),
        r.1 == line_start(v@.take(c as int)),
        r.2 == utf8_len(v@.subrange(r.1 as int, c as int)),
        r.1 <= c,
{
    let mut line: usize = 0;
    let mut start: usize = 0;
    let mut bytes: usize = 0;
    let mut i: usize = 0;
    let total = crate::text::byte_len(text);
    while i < c
        invariant
            total == utf8_len(v@),
            c <= v@.len(),
            i <= c,
            start <= i,
            line <= i,
            line == newline_count(v@.take(i as int)),
            start == line_start(v@.take(i as int)),
            bytes == utf8_len(v@.subrange(start as int, i as int)),
        decreases c - i,
    {
        let ch = v[i];
        assert(v@.take(i + 1).drop_last() =~= v@.take(i as int));
        assert(v@.take(i + 1).last() == ch);
        if ch == '\n' {
            line = line + 1;
            start = i + 1;
            bytes = 0;
            assert(v@.subrange(start as int, i + 1) =~= Seq::<char>::empty());
        } else {
            proof {
                lemma_utf8_len_subrange_step(v@, start as int, i as int);
                lemma_utf8_len_split(v@, start as int, i + 1);
            }
            bytes = bytes + char_width_of(ch);
        }
        i = i + 1;
    }
    (line, start, bytes)
}


/// The scroll position of the input box after the cursor has moved: moved
/// just enough that the cursor's line is one of the `visible` lines shown.
pub open spec fn scrolled(s: Seq<char>, cursor: int, visible: int, scroll: int) -> int {
    let line = cursor_line(s, cursor);
    if line < scroll {
        line
    } else if line >= scroll + visible {
        if line >= visible - 1 {
            line - (visible - 1)
        } else {
            0
        }
    } else {
        scroll
    }
}

/// The line and the byte offset within it at which the cursor stands.
pub fn get_cursor_line_info(input: &str, cursor_char_idx: usize) -> (r: (usize, usize))
    ensures
        r.0 == cursor_line(input@, cursor_char_idx as int),
        r.1 == cursor_byte_in_line(input@, cursor_char_idx as int),
{
    let v = chars_of(input);
    let c = if cursor_char_idx <= v.len() {
        cursor_char_idx
    } else {
        v.len()
    };
    let (line, _start, bytes) = locate_cursor(input, &v, c);
    (line, bytes)
}

/// Scrolls the input box so that the cursor's line is shown. With no
/// visible line, the cursor's line must lie above the scroll position.
pub fn update_input_scroll(
    input: &str,
    cursor_char_idx: usize,
    visible_lines: usize,
    input_scroll: &mut usize,
)
    requires
        visible_lines > 0 || cursor_line(input@, cursor_char_idx as int) < *old(input_scroll),
    ensures
        *final(input_scroll) == scrolled(
            input@,
            cursor_char_idx as int,
            visible_lines as int,
            *old(input_scroll) as int,
        ),
{
    let (line, _bytes) = get_cursor_line_info(input, cursor_char_idx);
    if line < *input_scroll {
        *input_scroll = line;
    } else if line - *input_scroll >= visible_lines {
        let keep = visible_lines - 1;
        *input_scroll = if line >= keep {
            line - keep
        } else {
            0
        };
    }
}

/// With at least one visible line, the cursor's line is shown after scrolling.
pub proof fn lemma_scrolled_shows_cursor(s: Seq<char>, cursor: int, visible: int, scroll: int)
    requires
        visible >= 1,
        scroll >= 0,
    ensures
        scrolled(s, cursor, visible, scroll) <= cursor_line(s, cursor) < scrolled(
            s,
            cursor,
            visible,
            scroll,
        ) + visible,
{
}

/// Scrolling leaves the position alone when the cursor's line is already shown.
pub proof fn lemma_scrolled_stays(s: Seq<char>, cursor: int, visible: int, scroll: int)
    requires
        scroll <= cursor_line(s, cursor) < scroll + visible,
    ensures
        scrolled(s, cursor, visible, scroll) == scroll,
{
}


/// The lines of `s`, split at each line break (`str::split('\n')`).
pub open spec fn split_lines(s: Seq<char>) -> Seq<Seq<char>>
    decreases s.len(),
{
    if s.len() == 0 {
        seq![Seq::<char>::empty()]
    } else {
        let prev = split_lines(s.drop_last());
        if s.last() == '\n' {
            prev.push(Seq::<char>::empty())
        } else {
            prev.update(prev.len() - 1, prev.last().push(s.last()))
        }
    }
}

/// There is one more line than line breaks, and the last line runs from
/// just past the last break to the end.
pub proof fn lemma_split_lines_last(s: Seq<char>)
    ensures
        split_lines(s).len() == newline_count(s) + 1,
        split_lines(s).last() == s.subrange(line_start(s), s.len() as int),
    decreases s.len(),
{
    if s.len() == 0 {
        assert(s.subrange(0, 0) =~= Seq::<char>::empty());
    } else {
        lemma_split_lines_last(s.drop_last());
        lemma_line_start_bound(s.drop_last());
        if s.last() == '\n' {
            assert(s.subrange(s.len() as int, s.len() as int) =~= Seq::<char>::empty());
        } else {
            assert(s.drop_last().subrange(line_start(s.drop_last()), s.drop_last().len() as int).push(
                s.last(),
            ) =~= s.subrange(line_start(s), s.len() as int));
        }
    }
}

/// Extending the text keeps earlier lines and extends the line the text ended on.
proof fn lemma_split_lines_prefix(s: Seq<char>, c: int, j: int)
    requires
        0 <= c <= j <= s.len(),
    ensures
        split_lines(s.take(j)).len() >= newline_count(s.take(c)) + 1,
        split_lines(s.take(c)).last().len() <= split_lines(s.take(j))[newline_count(
            s.take(c),
        ) as int].len(),
        split_lines(s.take(c)).last() == split_lines(s.take(j))[newline_count(
            s.take(c),
        ) as int].take(split_lines(s.take(c)).last().len() as int),
    decreases j - c,
{
    lemma_split_lines_last(s.take(c));
    let nc = newline_count(s.take(c)) as int;
    let p = split_lines(s.take(c)).last();
    if j == c {
        assert(p.take(p.len() as int) =~= p);
    } else {
        lemma_split_lines_prefix(s, c, j - 1);
        let t = s.take(j);
        assert(t.drop_last() =~= s.take(j - 1));
        lemma_split_lines_last(s.take(j - 1));
        let prev = split_lines(s.take(j - 1));
        if t.last() == '\n' {
        } else {
            if nc == prev.len() - 1 {
                assert(prev.last().push(t.last()).take(p.len() as int) =~= prev.last().take(
                    p.len() as int,
                ));
            }
        }
    }
}

/// The cursor's line, and within it the text before the cursor.
pub proof fn lemma_cursor_line_prefix(s: Seq<char>, cursor: int)
    requires
        cursor >= 0,
    ensures
        0 <= cursor_line(s, cursor) < split_lines(s).len(),
        ({
            let c = clamp_cursor(s, cursor);
            let line = split_lines(s)[cursor_line(s, cursor)];
            let before = s.subrange(line_start(s.take(c)), c);
            before.len() <= line.len() && line.take(before.len() as int) == before
        }),
{
    let c = clamp_cursor(s, cursor);
    lemma_line_start_bound(s.take(c));
    lemma_split_lines_prefix(s, c, s.len() as int);
    lemma_split_lines_last(s.take(c));
    assert(s.take(s.len() as int) =~= s);
    assert(s.take(c).subrange(line_start(s.take(c)), c) =~= s.subrange(line_start(s.take(c)), c));
}


/// The character sequences of a list of strings.
pub open spec fn strings_view(v: Seq<String>) -> Seq<Seq<char>> {
    v.map_values(|x: String| x@)
}

/// The lines of the input text (`str::split('\n')`).
pub fn split_input_lines(input: &str) -> (r: Vec<String>)
    ensures
        strings_view(r@) == split_lines(input@),
{
    let v = chars_of(input);
    let mut lines: Vec<String> = Vec::new();
    let mut cur = String::new();
    let mut i: usize = 0;
    assert(strings_view(lines@).push(cur@) =~= split_lines(v@.take(0)));
    while i < v.len()
        invariant
            v@ == input@,
            i <= v@.len(),
            strings_view(lines@).push(cur@) == split_lines(v@.take(i as int)),
        decreases v@.len() - i,
    {
        let ch = v[i];
        let ghost t = v@.take(i + 1);
        assert(t.drop_last() =~= v@.take(i as int));
        assert(t.last() == ch);
        if ch == '\n' {
            let done = cur;
            lines.push(done);
            cur = String::new();
            assert(strings_view(lines@).push(cur@) =~= split_lines(v@.take(i as int)).push(
                Seq::<char>::empty(),
            ));
        } else {
            let ghost prev = split_lines(v@.take(i as int));
            push_char(&mut cur, ch);
            assert(strings_view(lines@).push(cur@) =~= prev.update(
                prev.len() - 1,
                prev.last().push(ch),
            ));
        }
        i = i + 1;
    }
    assert(v@.take(v@.len() as int) =~= input@);
    lines.push(cur);
    assert(strings_view(lines@) =~= split_lines(input@));
    lines
}

/// The three parts in which the line holding the cursor is drawn: the text
/// before the cursor, the character under it (a space at the end of the
/// line), and the text after it.
pub open spec fn cursor_line_parts(line: Seq<char>, b: int) -> (Seq<char>, Seq<char>, Seq<char>) {
    if b < utf8_len(line) {
        let k = char_index_of_byte(line, b);
        (line.take(k), seq![line[k]], line.skip(k + 1))
    } else {
        (line, " "@, Seq::<char>::empty())
    }
}

/// Splits a line around the cursor at byte offset `cursor_byte_in_line`,
/// which lies on a character boundary or past the end.
pub fn render_cursor_line(line: &str, cursor_byte_in_line: usize) -> (r: (String, String, String))
    requires
        cursor_byte_in_line >= utf8_len(line@) || is_byte_boundary(line@, cursor_byte_in_line as int),
    ensures
        (r.0@, r.1@, r.2@) == cursor_line_parts(line@, cursor_byte_in_line as int),
{
    let total = crate::text::byte_len(line);
    if cursor_byte_in_line < total {
        let v = chars_of(line);
        let k = crate::navigation::char_index_at_byte(&v, cursor_byte_in_line);
        proof {
            assert(utf8_len(v@.take(k as int)) == cursor_byte_in_line);
            if k == v@.len() {
                assert(v@.take(k as int) =~= v@);
                assert(false);
            }
        }
        let n = v.len();
        assert(k < n);
        let before = string_of_range(v.as_slice(), 0, k);
        let at = string_of_range(v.as_slice(), k, k + 1);
        let after = string_of_range(v.as_slice(), k + 1, v.len());
        assert(v@.subrange(0, k as int) =~= v@.take(k as int));
        assert(v@.subrange(k as int, k + 1) =~= seq![v@[k as int]]);
        assert(v@.subrange(k + 1, v@.len() as int) =~= v@.skip(k + 1));
        (before, at, after)
    } else {
        (String::from_str(line), String::from_str(" "), String::new())
    }
}


/// One line of the input box as it is drawn.
pub enum InputLine {
    Plain(String),
    /// Text before the cursor, the character under it, text after it.
    WithCursor(String, String, String),
}

/// The mathematical form of a drawn input line.
pub enum InputLineV {
    Plain(Seq<char>),
    WithCursor(Seq<char>, Seq<char>, Seq<char>),
}

impl View for InputLine {
    type V = InputLineV;

    open spec fn view(&self) -> InputLineV {
        match self {
            InputLine::Plain(s) => InputLineV::Plain(s@),
            InputLine::WithCursor(a, b, c) => InputLineV::WithCursor(a@, b@, c@),
        }
    }
}

/// The lines that the input box shows: starting at line `scroll`, as many
/// as fit inside the box's border (`height - 2`), the cursor's line split
/// around the cursor.
pub open spec fn input_view(s: Seq<char>, cursor: int, scroll: int, height: int) -> Seq<InputLineV> {
    let lines = split_lines(s);
    let room = if height >= 2 { height - 2 } else { 0 };
    let first = if scroll <= lines.len() { scroll } else { lines.len() as int };
    let last = if scroll + room <= lines.len() { scroll + room } else { lines.len() as int };
    Seq::new((last - first) as nat, |j: int| input_line_at(s, cursor, first + j))
}

/// How line `i` of the text is drawn.
pub open spec fn input_line_at(s: Seq<char>, cursor: int, i: int) -> InputLineV {
    let line = split_lines(s)[i];
    if i == cursor_line(s, cursor) {
        let parts = cursor_line_parts(line, cursor_byte_in_line(s, cursor));
        InputLineV::WithCursor(parts.0, parts.1, parts.2)
    } else {
        InputLineV::Plain(line)
    }
}

/// What the input box shows for the given text, cursor, scroll position and box height.
pub fn input_lines(input: &str, cursor_char_idx: usize, input_scroll: usize, height: u16) -> (r: Vec<
    InputLine,
>)
    ensures
        r@.map_values(|l: InputLine| l@) == input_view(
            input@,
            cursor_char_idx as int,
            input_scroll as int,
            height as int,
        ),
{
    let lines = split_input_lines(input);
    let (cl, cb) = get_cursor_line_info(input, cursor_char_idx);
    proof {
        lemma_cursor_line_prefix(input@, cursor_char_idx as int);
    }
    let n = lines.len();
    let room: usize = if height >= 2 {
        (height - 2) as usize
    } else {
        0
    };
    let first = if input_scroll <= n {
        input_scroll
    } else {
        n
    };
    let last = if room <= n - first {
        first + room
    } else {
        n
    };
    let ghost want = input_view(input@, cursor_char_idx as int, input_scroll as int, height as int);
    assert(want.len() == last - first);
    let mut out: Vec<InputLine> = Vec::new();
    let mut i: usize = first;
    while i < last
        invariant
            first <= i <= last <= n,
            n == lines@.len(),
            strings_view(lines@) == split_lines(input@),
            cl == cursor_line(input@, cursor_char_idx as int),
            cb == cursor_byte_in_line(input@, cursor_char_idx as int),
            0 <= cl < n,
            ({
                let c = clamp_cursor(input@, cursor_char_idx as int);
                let line = split_lines(input@)[cl as int];
                let before = input@.subrange(line_start(input@.take(c)), c);
                before.len() <= line.len() && line.take(before.len() as int) == before && cb
                    == utf8_len(before)
            }),
            want == input_view(input@, cursor_char_idx as int, input_scroll as int, height as int),
            want.len() == last - first,
            first == (if input_scroll <= n { input_scroll } else { n }),
            out@.len() == i - first,
            forall|j: int| 0 <= j < i - first ==> #[trigger] out@[j]@ == want[j],
        decreases last - i,
    {
        assert(strings_view(lines@)[i as int] == lines@[i as int]@);
        if i == cl {
            proof {
                let c = clamp_cursor(input@, cursor_char_idx as int);
                let line = split_lines(input@)[cl as int];
                let before = input@.subrange(line_start(input@.take(c)), c);
                crate::navigation::lemma_char_index_of_byte(line, before.len() as int);
            }
            let (a, b, c) = render_cursor_line(lines[i].as_str(), cb);
            let ghost parts = cursor_line_parts(lines@[i as int]@, cb as int);
            assert(want[i - first] == input_line_at(input@, cursor_char_idx as int, i as int));
            out.push(InputLine::WithCursor(a, b, c));
        } else {
            let l = lines[i].clone();
            assert(want[i - first] == input_line_at(input@, cursor_char_idx as int, i as int));
            out.push(InputLine::Plain(l));
        }
        assert(out@[i - first]@ == want[i - first]);
        i = i + 1;
    }
    assert(out@.map_values(|l: InputLine| l@) =~= want);
    out
}


/// What the interface asks the caller to do after a key press.
#[derive(Debug)]
pub enum Command {
    /// Load the history of a conversation.
    LoadMessages(i64),
    /// Send a text to a conversation.
    SendMessage(i64, String),
}

/// The mathematical form of a command.
pub enum CommandV {
    LoadMessages(i64),
    SendMessage(i64, Seq<char>),
}

/// The mathematical form of an optional command.
pub open spec fn command_view(c: Option<Command>) -> Option<CommandV> {
    match c {
        Some(Command::LoadMessages(p)) => Some(CommandV::LoadMessages(p)),
        Some(Command::SendMessage(p, t)) => Some(CommandV::SendMessage(p, t@)),
        None => None,
    }
}

/// What the right-hand side shows.
#[derive(Debug, Clone)]
#[allow(inconsistent_fields)]
pub enum Screen {
    /// No chat open; `selected` and `offset` are the chat list's selection
    /// and scroll offset.
    ChatList { selected: Option<usize>, offset: usize },
    /// A chat is open.
    ChatView {
        peer_id: i64,
        messages: Vec<Message>,
        input: String,
        selected: usize,
        scroll: usize,
        cursor_char_idx: usize,
        input_scroll: usize,
    },
}

/// The mathematical form of a screen.
#[allow(inconsistent_fields)]
pub enum ScreenV {
    ChatList { selected: Option<usize>, offset: usize },
    ChatView {
        peer_id: i64,
        messages: Seq<MessageV>,
        input: Seq<char>,
        selected: usize,
        scroll: usize,
        cursor: usize,
        input_scroll: usize,
    },
}

/// The mathematical form of a list of messages.
pub open spec fn messages_view(v: Seq<Message>) -> Seq<MessageV> {
    v.map_values(|m: Message| m@)
}

impl View for Screen {
    type V = ScreenV;

    open spec fn view(&self) -> ScreenV {
        match self {
            Screen::ChatList { selected, offset } => ScreenV::ChatList {
                selected: *selected,
                offset: *offset,
            },
            Screen::ChatView {
                peer_id,
                messages,
                input,
                selected,
                scroll,
                cursor_char_idx,
                input_scroll,
            } => ScreenV::ChatView {
                peer_id: *peer_id,
                messages: messages_view(messages@),
                input: input@,
                selected: *selected,
                scroll: *scroll,
                cursor: *cursor_char_idx,
                input_scroll: *input_scroll,
            },
        }
    }
}

/// The application's state.
pub struct App {
    pub screen: Screen,
    pub dialogs: Vec<Dialog>,
    pub min_size: (u16, u16),
    pub running: bool,
    pub mode: Mode,
    pub config: Config,
}

/// The mathematical form of the application's state.
pub struct AppV {
    pub screen: ScreenV,
    pub dialogs: Seq<(Seq<char>, i64)>,
    pub min_size: (u16, u16),
    pub running: bool,
    pub mode: Mode,
    pub token: Seq<char>,
    pub min_width: u16,
    pub min_height: u16,
    pub keys: KeyBindings,
}

impl View for App {
    type V = AppV;

    open spec fn view(&self) -> AppV {
        AppV {
            screen: self.screen@,
            dialogs: self.dialogs@.map_values(|d: Dialog| dialog_view(d)),
            min_size: self.min_size,
            running: self.running,
            mode: self.mode,
            token: self.config.token@,
            min_width: self.config.min_width,
            min_height: self.config.min_height,
            keys: self.config.keys,
        }
    }
}

/// `n - 1`, or `0` for an empty list.
pub open spec fn last_index(n: nat) -> nat {
    if n >= 1 {
        (n - 1) as nat
    } else {
        0
    }
}

/// The chat selected after moving down: the next one, wrapping from the last to the first.
pub open spec fn next_selection(selected: Option<usize>, n: nat) -> usize {
    match selected {
        Some(i) => if i >= last_index(n) {
            0
        } else {
            (i + 1) as usize
        },
        None => 0,
    }
}

/// The chat selected after moving up: the previous one, wrapping from the first to the last.
pub open spec fn prev_selection(selected: Option<usize>, n: nat) -> usize {
    match selected {
        Some(i) => if i == 0 {
            last_index(n) as usize
        } else {
            (i - 1) as usize
        },
        None => 0,
    }
}

/// A key press on the chat list.
pub open spec fn chat_list_step(
    a: AppV,
    selected: Option<usize>,
    offset: usize,
    key: Key,
) -> (ScreenV, Option<CommandV>) {
    let n = a.dialogs.len();
    if key == a.keys.move_down_list {
        (ScreenV::ChatList { selected: Some(next_selection(selected, n)), offset }, None)
    } else if key == a.keys.move_up_list {
        (ScreenV::ChatList { selected: Some(prev_selection(selected, n)), offset }, None)
    } else if key == a.keys.enter_chat || key == a.keys.enter_chat_secondary {
        match selected {
            Some(i) => if i < n {
                let peer = a.dialogs[i as int].1;
                (
                    ScreenV::ChatView {
                        peer_id: peer,
                        messages: Seq::empty(),
                        input: Seq::empty(),
                        selected: 0,
                        scroll: 0,
                        cursor: 0,
                        input_scroll: 0,
                    },
                    Some(CommandV::LoadMessages(peer)),
                )
            } else {
                (ScreenV::ChatList { selected, offset }, None)
            },
            None => (ScreenV::ChatList { selected, offset }, None),
        }
    } else {
        (ScreenV::ChatList { selected, offset }, None)
    }
}

/// A key press in an open chat: in normal mode it moves through the
/// messages, sends the input, or goes back to the list; in insert mode it
/// edits the input and keeps the cursor's line in view.
pub open spec fn chat_view_step(a: AppV, screen: ScreenV, key: Key) -> (ScreenV, Option<CommandV>) {
    match screen {
        ScreenV::ChatView { peer_id, messages, input, selected, scroll, cursor, input_scroll } => {
            if a.mode == Mode::Normal {
                if key == a.keys.move_down_list {
                    if selected + 1 < messages.len() {
                        let s = (selected + 1) as usize;
                        (
                            ScreenV::ChatView {
                                peer_id,
                                messages,
                                input,
                                selected: s,
                                scroll: s,
                                cursor,
                                input_scroll,
                            },
                            None,
                        )
                    } else {
                        (screen, None)
                    }
                } else if key == a.keys.move_up_list {
                    if selected > 0 {
                        let s = (selected - 1) as usize;
                        (
                            ScreenV::ChatView {
                                peer_id,
                                messages,
                                input,
                                selected: s,
                                scroll: s,
                                cursor,
                                input_scroll,
                            },
                            None,
                        )
                    } else {
                        (screen, None)
                    }
                } else if key == Key::Enter {
                    if input.len() > 0 {
                        (
                            ScreenV::ChatView {
                                peer_id,
                                messages,
                                input: Seq::empty(),
                                selected,
                                scroll,
                                cursor,
                                input_scroll,
                            },
                            Some(CommandV::SendMessage(peer_id, input)),
                        )
                    } else {
                        (screen, None)
                    }
                } else if key == a.keys.view_chat_list {
                    (ScreenV::ChatList { selected: None, offset: 0 }, None)
                } else {
                    (screen, None)
                }
            } else {
                let (text, c) = typed(input, cursor as int, key);
                (
                    ScreenV::ChatView {
                        peer_id,
                        messages,
                        input: text,
                        selected,
                        scroll,
                        cursor: c as usize,
                        input_scroll: scrolled(text, c, 1, input_scroll as int) as usize,
                    },
                    None,
                )
            }
        },
        _ => (screen, None),
    }
}

/// The state after a key press, and the command it asks for. The quit key
/// stops the application; the mode keys switch modes; other keys go to the
/// chat list or the open chat.
pub open spec fn step(a: AppV, key: Key) -> (AppV, Option<CommandV>) {
    if key == a.keys.quit {
        (AppV { running: false, ..a }, None)
    } else if a.mode == Mode::Normal && key == a.keys.to_insert_mode {
        (AppV { mode: Mode::Insert, ..a }, None)
    } else if a.mode == Mode::Insert && key == a.keys.to_normal_mode {
        (AppV { mode: Mode::Normal, ..a }, None)
    } else {
        let (screen, cmd) = match a.screen {
            ScreenV::ChatList { selected, offset } => chat_list_step(a, selected, offset, key),
            ScreenV::ChatView { .. } => chat_view_step(a, a.screen, key),
        };
        (AppV { screen, ..a }, cmd)
    }
}

/// The key press reaches the line editor of an open chat.
pub open spec fn reaches_typing(a: AppV, key: Key) -> bool {
    &&& key != a.keys.quit
    &&& a.mode == Mode::Insert
    &&& key != a.keys.to_normal_mode
    &&& a.screen is ChatView
}

/// A key press can be handled: where it reaches the line editor, the editor
/// can apply it (see `typing_allowed`).
pub open spec fn accepts(a: AppV, key: Key) -> bool {
    reaches_typing(a, key) ==> match a.screen {
        ScreenV::ChatView { input, cursor, .. } => typing_allowed(input, cursor as int, key),
        _ => true,
    }
}


/// Whether byte offset `b` of `s` falls on a character boundary.
pub fn is_boundary_at(s: &str, b: usize) -> (r: bool)
    ensures
        r == is_byte_boundary(s@, b as int),
{
    let v = chars_of(s);
    let n = v.len();
    let total = crate::text::byte_len(s);
    let mut i: usize = 0;
    let mut acc: usize = 0;
    while acc < b && i < n
        invariant
            n == v@.len(),
            v@ == s@,
            total == utf8_len(s@),
            i <= n,
            acc == utf8_len(v@.take(i as int)),
            forall|k: int| 0 <= k < i ==> utf8_len(#[trigger] v@.take(k)) < b,
        decreases n - i,
    {
        proof {
            crate::text::lemma_utf8_len_take_step(v@, i as int);
            lemma_utf8_len_split(v@, 0, i + 1);
            assert(v@.subrange(0, i + 1) =~= v@.take(i + 1));
        }
        acc = acc + char_width_of(v[i]);
        i = i + 1;
    }
    proof {
        if acc == b {
            assert(0 <= i <= s@.len() && utf8_len(s@.take(i as int)) == b);
        } else {
            assert forall|k: int| 0 <= k <= s@.len() implies utf8_len(s@.take(k)) != b by {
                if k < i {
                } else if k > i {
                    crate::navigation::lemma_byte_offsets_distinct(s@, i as int, k);
                } else {
                }
            }
        }
    }
    acc == b
}

impl App {
    /// A new interface showing the chat list, the first chat selected if there is one.
    pub fn new(dialogs: Vec<Dialog>, min_size: (u16, u16), conf: Config) -> (r: App)
        ensures
            r@.screen == (ScreenV::ChatList {
                selected: if dialogs@.len() > 0 {
                    Some(0usize)
                } else {
                    None
                },
                offset: 0,
            }),
            r@.dialogs == dialogs@.map_values(|d: Dialog| dialog_view(d)),
            r@.min_size == min_size,
            r@.running,
            r@.mode == Mode::Normal,
            r@.token == conf.token@,
            r@.min_width == conf.min_width,
            r@.min_height == conf.min_height,
            r@.keys == conf.keys,
    {
        let selected = if dialogs.len() > 0 {
            Some(0)
        } else {
            None
        };
        App {
            screen: Screen::ChatList { selected, offset: 0 },
            dialogs,
            min_size,
            running: true,
            mode: Mode::Normal,
            config: conf,
        }
    }

    /// Whether a key press can be handled in the current state.
    pub fn accepts_key(&self, key_code: Key) -> (b: bool)
        ensures
            b == accepts(self@, key_code),
    {
        if key_code == self.config.keys.quit || self.mode == Mode::Normal || key_code
            == self.config.keys.to_normal_mode {
            return true;
        }
        match &self.screen {
            Screen::ChatView { input, cursor_char_idx, .. } => {
                let c = *cursor_char_idx;
                match key_code {
                    Key::Backspace => c == 0 || input.as_str().unicode_len() > 0,
                    Key::Enter => c < usize::MAX && is_boundary_at(input.as_str(), c),
                    Key::Char(_) => c < usize::MAX,
                    _ => true,
                }
            },
            Screen::ChatList { .. } => true,
        }
    }

    /// Handles a key press and returns the command it asks for.
    pub fn handle_input(&mut self, key_code: Key) -> (r: Option<Command>)
        requires
            accepts(old(self)@, key_code),
        ensures
            (final(self)@, command_view(r)) == step(old(self)@, key_code),
    {
        if self.config.keys.quit == key_code {
            self.running = false;
            return None;
        }
        match self.mode {
            Mode::Normal => {
                if self.config.keys.to_insert_mode == key_code {
                    self.mode = Mode::Insert;
                    return None;
                }
            },
            Mode::Insert => {
                if self.config.keys.to_normal_mode == key_code {
                    self.mode = Mode::Normal;
                    return None;
                }
            },
        }
        let ghost a = self@;
        let mut screen = Screen::ChatList { selected: None, offset: 0 };
        std::mem::swap(&mut screen, &mut self.screen);
        let (next, cmd) = match screen {
            Screen::ChatList { selected, offset } => self.handle_chat_list_input(
                key_code,
                selected,
                offset,
            ),
            Screen::ChatView {
                peer_id,
                messages,
                input,
                selected,
                scroll,
                cursor_char_idx,
                input_scroll,
            } => self.handle_chat_view_input(
                key_code,
                peer_id,
                messages,
                input,
                selected,
                scroll,
                cursor_char_idx,
                input_scroll,
            ),
        };
        self.screen = next;
        proof {
            assert(self@.dialogs == a.dialogs);
        }
        cmd
    }

    /// A key press on the chat list.
    fn handle_chat_list_input(&self, key_code: Key, selected: Option<usize>, offset: usize) -> (r: (
        Screen,
        Option<Command>,
    ))
        ensures
            (r.0@, command_view(r.1)) == chat_list_step(self@, selected, offset, key_code),
    {
        let n = self.dialogs.len();
        let last = if n >= 1 {
            n - 1
        } else {
            0
        };
        if self.config.keys.move_down_list == key_code {
            let next = match selected {
                Some(i) => if i >= last {
                    0
                } else {
                    i + 1
                },
                None => 0,
            };
            (Screen::ChatList { selected: Some(next), offset }, None)
        } else if self.config.keys.move_up_list == key_code {
            let prev = match selected {
                Some(i) => if i == 0 {
                    last
                } else {
                    i - 1
                },
                None => 0,
            };
            (Screen::ChatList { selected: Some(prev), offset }, None)
        } else if self.config.keys.enter_chat == key_code || self.config.keys.enter_chat_secondary
            == key_code {
            match selected {
                Some(i) => {
                    if i < n {
                        let peer_id = self.dialogs[i].peer_id;
                        let screen = Screen::ChatView {
                            peer_id,
                            messages: Vec::new(),
                            input: String::new(),
                            selected: 0,
                            scroll: 0,
                            cursor_char_idx: 0,
                            input_scroll: 0,
                        };
                        proof {
                            assert(messages_view(Seq::<Message>::empty()) =~= Seq::<MessageV>::empty());
                        }
                        (screen, Some(Command::LoadMessages(peer_id)))
                    } else {
                        (Screen::ChatList { selected, offset }, None)
                    }
                },
                None => (Screen::ChatList { selected, offset }, None),
            }
        } else {
            (Screen::ChatList { selected, offset }, None)
        }
    }

    /// A key press in an open chat.
    fn handle_chat_view_input(
        &self,
        key_code: Key,
        peer_id: i64,
        messages: Vec<Message>,
        input: String,
        selected: usize,
        scroll: usize,
        cursor_char_idx: usize,
        input_scroll: usize,
    ) -> (r: (Screen, Option<Command>))
        requires
            self.mode == Mode::Insert ==> typing_allowed(input@, cursor_char_idx as int, key_code),
        ensures
            (r.0@, command_view(r.1)) == chat_view_step(
                self@,
                ScreenV::ChatView {
                    peer_id,
                    messages: messages_view(messages@),
                    input: input@,
                    selected,
                    scroll,
                    cursor: cursor_char_idx,
                    input_scroll,
                },
                key_code,
            ),
    {
        let mut input = input;
        let mut selected = selected;
        let mut scroll = scroll;
        let mut cursor_char_idx = cursor_char_idx;
        let mut input_scroll = input_scroll;
        match self.mode {
            Mode::Normal => {
                let n = messages.len();
                if self.config.keys.move_down_list == key_code {
                    if n > 0 && selected < n - 1 {
                        selected = selected + 1;
                        scroll = selected;
                    }
                } else if self.config.keys.move_up_list == key_code {
                    if selected > 0 {
                        selected = selected - 1;
                        scroll = selected;
                    }
                } else if key_code == Key::Enter {
                    if input.as_str().unicode_len() > 0 {
                        let text = input;
                        let screen = Screen::ChatView {
                            peer_id,
                            messages,
                            input: String::new(),
                            selected,
                            scroll,
                            cursor_char_idx,
                            input_scroll,
                        };
                        return (screen, Some(Command::SendMessage(peer_id, text)));
                    }
                } else if self.config.keys.view_chat_list == key_code {
                    return (Screen::ChatList { selected: None, offset: 0 }, None);
                }
                let screen = Screen::ChatView {
                    peer_id,
                    messages,
                    input,
                    selected,
                    scroll,
                    cursor_char_idx,
                    input_scroll,
                };
                (screen, None)
            },
            Mode::Insert => {
                typing(&mut input, &mut cursor_char_idx, key_code);
                update_input_scroll(input.as_str(), cursor_char_idx, 1, &mut input_scroll);
                let screen = Screen::ChatView {
                    peer_id,
                    messages,
                    input,
                    selected,
                    scroll,
                    cursor_char_idx,
                    input_scroll,
                };
                (screen, None)
            },
        }
    }
}


/// Moving down and then up through the chat list, or up and then down,
/// returns to the chat that was selected.
pub proof fn lemma_selection_round_trip(i: usize, n: nat)
    requires
        i < n,
        n <= usize::MAX,
    ensures
        prev_selection(Some(next_selection(Some(i), n)), n) == i,
        next_selection(Some(prev_selection(Some(i), n)), n) == i,
{
}

/// In a non-empty chat list, moving up or down always selects an existing chat.
pub proof fn lemma_selection_in_range(selected: Option<usize>, n: nat)
    requires
        n > 0,
        n <= usize::MAX,
        selected matches Some(i) ==> i <= n,
    ensures
        next_selection(selected, n) < n,
        prev_selection(selected, n) < n,
{
}

/// The quit key stops the application and changes nothing else.
pub proof fn lemma_quit_stops(a: AppV)
    ensures
        step(a, a.keys.quit).0 == (AppV { running: false, ..a }),
        step(a, a.keys.quit).1 is None,
{
}

/// In normal mode, the insert-mode key switches to insert mode (unless it
/// is also the quit key), and the normal-mode key switches back from insert mode.
pub proof fn lemma_mode_keys(a: AppV)
    ensures
        a.mode == Mode::Normal && a.keys.to_insert_mode != a.keys.quit ==> step(
            a,
            a.keys.to_insert_mode,
        ).0.mode == Mode::Insert,
        a.mode == Mode::Insert && a.keys.to_normal_mode != a.keys.quit ==> step(
            a,
            a.keys.to_normal_mode,
        ).0.mode == Mode::Normal,
{
}

/// Opening the selected chat asks for its history and shows it with an
/// empty input.
pub proof fn lemma_enter_chat_loads(a: AppV, i: usize, offset: usize)
    requires
        a.screen == (ScreenV::ChatList { selected: Some(i), offset }),
        i < a.dialogs.len(),
        a.keys.enter_chat != a.keys.quit,
        a.keys.enter_chat != a.keys.move_down_list,
        a.keys.enter_chat != a.keys.move_up_list,
        a.mode == Mode::Normal ==> a.keys.enter_chat != a.keys.to_insert_mode,
        a.mode == Mode::Insert ==> a.keys.enter_chat != a.keys.to_normal_mode,
    ensures
        step(a, a.keys.enter_chat).1 == Some(CommandV::LoadMessages(a.dialogs[i as int].1)),
        step(a, a.keys.enter_chat).0.screen matches ScreenV::ChatView { peer_id, input, .. }
            && peer_id == a.dialogs[i as int].1 && input.len() == 0,
{
}

/// In normal mode, Enter in an open chat with some input sends that input
/// to the chat and empties the input.
pub proof fn lemma_enter_sends_input(a: AppV)
    requires
        a.mode == Mode::Normal,
        a.screen matches ScreenV::ChatView { input, .. } && input.len() > 0,
        Key::Enter != a.keys.quit,
        Key::Enter != a.keys.to_insert_mode,
        Key::Enter != a.keys.move_down_list,
        Key::Enter != a.keys.move_up_list,
    ensures
        ({
            let (b, cmd) = step(a, Key::Enter);
            &&& a.screen matches ScreenV::ChatView { peer_id, input, .. } && cmd == Some(
                CommandV::SendMessage(peer_id, input),
            )
            &&& b.screen matches ScreenV::ChatView { input, .. } && input.len() == 0
        }),
{
}

/// Moving through the messages of an open chat keeps the selection on an
/// existing message.
pub proof fn lemma_message_selection_in_range(a: AppV, key: Key)
    requires
        a.screen matches ScreenV::ChatView { messages, selected, .. } && selected < messages.len(),
        a.mode == Mode::Normal,
    ensures
        step(a, key).0.screen matches ScreenV::ChatView { messages, selected, .. } ==> selected
            < messages.len(),
{
}


/// What reaches the main loop: a key press, a message pushed by the
/// service, or the clock's tick.
pub enum AppEvent {
    Input(Key),
    NewMessage(Message),
    Tick,
}

/// The state after a service pushes a message: it is appended to the open chat, if any.
pub open spec fn with_new_message(a: AppV, m: MessageV) -> AppV {
    match a.screen {
        ScreenV::ChatView { peer_id, messages, input, selected, scroll, cursor, input_scroll } => AppV {
            screen: ScreenV::ChatView {
                peer_id,
                messages: messages.push(m),
                input,
                selected,
                scroll,
                cursor,
                input_scroll,
            },
            ..a
        },
        _ => a,
    }
}

/// The state after a history load: the open chat, if any, shows the loaded messages.
pub open spec fn with_messages(a: AppV, ms: Seq<MessageV>) -> AppV {
    match a.screen {
        ScreenV::ChatView { peer_id, messages, input, selected, scroll, cursor, input_scroll } => AppV {
            screen: ScreenV::ChatView {
                peer_id,
                messages: ms,
                input,
                selected,
                scroll,
                cursor,
                input_scroll,
            },
            ..a
        },
        _ => a,
    }
}

/// The conversation that is open, if any.
pub open spec fn open_peer(a: AppV) -> Option<i64> {
    match a.screen {
        ScreenV::ChatView { peer_id, .. } => Some(peer_id),
        _ => None,
    }
}

/// The state after the chat list was drawn, which may move its selection and scroll offset.
pub open spec fn with_list_state(a: AppV, selected: Option<usize>, offset: usize) -> AppV {
    match a.screen {
        ScreenV::ChatList { .. } => AppV { screen: ScreenV::ChatList { selected, offset }, ..a },
        _ => a,
    }
}

/// The text shown when the window is smaller than required.
pub open spec fn min_size_text(min: (u16, u16), width: u16, height: u16) -> Seq<char> {
    "Minimum size: "@ + int_digits(min.0 as int) + "x"@ + int_digits(min.1 as int)
        + "; Current: "@ + int_digits(width as int) + "x"@ + int_digits(height as int)
}

/// The label of the mode bar.
pub open spec fn mode_text(m: Mode) -> Seq<char> {
    match m {
        Mode::Normal => "   NORMAL   "@,
        Mode::Insert => "   INSERT   "@,
    }
}

/// What precedes a message's text: `You: ` for the user's own, else the sender's name.
pub open spec fn message_label_text(m: MessageV) -> Seq<char> {
    if m.is_me {
        "You: "@
    } else {
        m.sender_name + ": "@
    }
}

impl App {
    /// Handles one event of the main loop and returns the command it asks for:
    /// key presses go to `handle_input`, a pushed message joins the open chat,
    /// and each tick reloads the open chat's history.
    pub fn handle_event(&mut self, event: AppEvent) -> (r: Option<Command>)
        requires
            event matches AppEvent::Input(k) ==> accepts(old(self)@, k),
        ensures
            match event {
                AppEvent::Input(k) => (final(self)@, command_view(r)) == step(old(self)@, k),
                AppEvent::NewMessage(m) => final(self)@ == with_new_message(old(self)@, m@)
                    && r is None,
                AppEvent::Tick => final(self)@ == old(self)@ && command_view(r) == match open_peer(
                    old(self)@,
                ) {
                    Some(p) => Some(CommandV::LoadMessages(p)),
                    None => None,
                },
            },
    {
        match event {
            AppEvent::Input(k) => self.handle_input(k),
            AppEvent::NewMessage(m) => {
                self.push_message(m);
                None
            },
            AppEvent::Tick => match self.active_peer() {
                Some(p) => Some(Command::LoadMessages(p)),
                None => None,
            },
        }
    }

    /// Appends a message to the open chat, if any.
    pub fn push_message(&mut self, m: Message)
        ensures
            final(self)@ == with_new_message(old(self)@, m@),
    {
        match &mut self.screen {
            Screen::ChatView { messages, .. } => {
                let ghost before = messages@;
                messages.push(m);
                proof {
                    assert(messages_view(messages@) =~= messages_view(before).push(m@));
                }
            },
            Screen::ChatList { .. } => {},
        }
    }

    /// Shows freshly loaded messages in the open chat, if any.
    pub fn set_messages(&mut self, loaded: Vec<Message>)
        ensures
            final(self)@ == with_messages(old(self)@, messages_view(loaded@)),
    {
        match &mut self.screen {
            Screen::ChatView { messages, .. } => {
                *messages = loaded;
            },
            Screen::ChatList { .. } => {},
        }
    }

    /// The open conversation, if any.
    pub fn active_peer(&self) -> (r: Option<i64>)
        ensures
            r == open_peer(self@),
    {
        match &self.screen {
            Screen::ChatView { peer_id, .. } => Some(*peer_id),
            Screen::ChatList { .. } => None,
        }
    }

    /// Takes over the chat list's selection and offset as drawing left them.
    pub fn sync_list_state(&mut self, selected: Option<usize>, offset: usize)
        ensures
            final(self)@ == with_list_state(old(self)@, selected, offset),
    {
        match &self.screen {
            Screen::ChatList { .. } => {
                self.screen = Screen::ChatList { selected, offset };
            },
            Screen::ChatView { .. } => {},
        }
    }

    /// Whether a window of the given size is large enough to draw in.
    pub fn check_min_size(&self, width: u16, height: u16) -> (b: bool)
        ensures
            b == !(width < self.min_size.0 || height < self.min_size.1),
    {
        !(width < self.min_size.0 || height < self.min_size.1)
    }

    /// The notice shown in a window that is too small.
    pub fn min_size_message(&self, width: u16, height: u16) -> (r: String)
        ensures
            r@ == min_size_text(self.min_size, width, height),
    {
        let mut r = String::from_str("Minimum size: ");
        push_int(&mut r, self.min_size.0 as i64);
        r.append("x");
        push_int(&mut r, self.min_size.1 as i64);
        r.append("; Current: ");
        push_int(&mut r, width as i64);
        r.append("x");
        push_int(&mut r, height as i64);
        r
    }

    /// The label of the mode bar.
    pub fn mode_label(&self) -> (r: String)
        ensures
            r@ == mode_text(self.mode),
    {
        match self.mode {
            Mode::Normal => String::from_str("   NORMAL   "),
            Mode::Insert => String::from_str("   INSERT   "),
        }
    }
}

/// What precedes a message's text in the chat.
pub fn message_label(m: &Message) -> (r: String)
    ensures
        r@ == message_label_text(m@),
{
    if m.is_me {
        String::from_str("You: ")
    } else {
        let mut r = m.sender_name.clone();
        r.append(": ");
        r
    }
}

/// A history load answered: the open chat shows exactly the loaded messages.
pub proof fn lemma_loaded_messages_shown(a: AppV, ms: Seq<MessageV>)
    requires
        a.screen is ChatView,
    ensures
        with_messages(a, ms).screen matches ScreenV::ChatView { messages, .. } && messages == ms,
        open_peer(with_messages(a, ms)) == open_peer(a),
{
}


/// A key press changes only the screen, the mode and whether the
/// application runs; it stops running exactly on the quit key and never
/// starts again.
pub proof fn lemma_step_keeps_settings(a: AppV, key: Key)
    ensures
        step(a, key).0.running == (a.running && key != a.keys.quit),
        step(a, key).0.dialogs == a.dialogs,
        step(a, key).0.min_size == a.min_size,
        step(a, key).0.token == a.token,
        step(a, key).0.min_width == a.min_width,
        step(a, key).0.min_height == a.min_height,
        step(a, key).0.keys == a.keys,
{
}

/// On the chat list, the move-down key followed by the move-up key returns
/// to the chat that was selected, across the wrap from last to first too.
pub proof fn lemma_list_down_then_up(a: AppV, i: usize, offset: usize)
    requires
        i < a.dialogs.len(),
        a.dialogs.len() <= usize::MAX,
        a.keys.move_down_list != a.keys.move_up_list,
    ensures
        ({
            let (s1, c1) = chat_list_step(a, Some(i), offset, a.keys.move_down_list);
            &&& c1 is None
            &&& s1 matches ScreenV::ChatList { selected, offset: o } && chat_list_step(
                a,
                selected,
                o,
                a.keys.move_up_list,
            ) == (ScreenV::ChatList { selected: Some(i), offset }, None::<CommandV>)
        }),
{
    lemma_selection_round_trip(i, a.dialogs.len());
}


/// The key presses in an open chat that reach its own handling: not the quit
/// key, and not the key that switches away from the current mode.
pub open spec fn reaches_chat(a: AppV, key: Key) -> bool {
    &&& key != a.keys.quit
    &&& a.mode == Mode::Normal ==> key != a.keys.to_insert_mode
    &&& a.mode == Mode::Insert ==> key != a.keys.to_normal_mode
}

/// In normal mode, the move-up key in an open chat selects the previous
/// message and scrolls to it; at the first message it stays.
pub proof fn lemma_chat_up_selects_previous(a: AppV)
    requires
        a.mode == Mode::Normal,
        a.screen is ChatView,
        reaches_chat(a, a.keys.move_up_list),
        a.keys.move_up_list != a.keys.move_down_list,
    ensures
        ({
            let b = step(a, a.keys.move_up_list).0;
            match (a.screen, b.screen) {
                (
                    ScreenV::ChatView { selected: i, scroll: sc, messages: m, .. },
                    ScreenV::ChatView { selected: j, scroll: sc2, messages: m2, .. },
                ) => m2 == m && (i > 0 ==> j == i - 1 && sc2 == i - 1) && (i == 0 ==> j == 0
                    && sc2 == sc),
                _ => false,
            }
        }),
{
}

/// In normal mode, the move-down key in an open chat selects the next
/// message and scrolls to it when there is one; at the last it stays.
pub proof fn lemma_chat_down_selects_next(a: AppV)
    requires
        a.mode == Mode::Normal,
        a.screen matches ScreenV::ChatView { messages, .. } && messages.len() <= usize::MAX,
        reaches_chat(a, a.keys.move_down_list),
    ensures
        ({
            let b = step(a, a.keys.move_down_list).0;
            match (a.screen, b.screen) {
                (
                    ScreenV::ChatView { selected: i, scroll: sc, messages: m, .. },
                    ScreenV::ChatView { selected: j, scroll: sc2, messages: m2, .. },
                ) => m2 == m && (i + 1 < m.len() ==> j == i + 1 && sc2 == i + 1) && (i + 1
                    >= m.len() ==> j == i && sc2 == sc),
                _ => false,
            }
        }),
{
}

/// In normal mode in an open chat, moving down and then up returns to the
/// message that was selected, when there was a next one.
pub proof fn lemma_chat_down_then_up(a: AppV)
    requires
        a.mode == Mode::Normal,
        a.screen matches ScreenV::ChatView { selected, messages, .. } && selected + 1
            < messages.len() && messages.len() <= usize::MAX,
        reaches_chat(a, a.keys.move_down_list),
        reaches_chat(a, a.keys.move_up_list),
        a.keys.move_up_list != a.keys.move_down_list,
    ensures
        step(step(a, a.keys.move_down_list).0, a.keys.move_up_list).0.screen matches ScreenV::ChatView {
            selected,
            ..
        } && a.screen matches ScreenV::ChatView { selected: i, .. } && selected == i,
{
}

/// After any key press that the line editor of an open chat handles in
/// insert mode, the one-line input box shows the cursor's line.
pub proof fn lemma_insert_keeps_cursor_line_shown(a: AppV, key: Key)
    requires
        a.mode == Mode::Insert,
        a.screen matches ScreenV::ChatView { input, .. } && input.len() < usize::MAX,
        reaches_chat(a, key),
        accepts(a, key),
    ensures
        step(a, key).0.screen matches ScreenV::ChatView { input, cursor, input_scroll, .. }
            && input_scroll <= newline_count(input.take(clamp_cursor(input, cursor as int)))
            < input_scroll + 1,
{
    match a.screen {
        ScreenV::ChatView { input, cursor, input_scroll, .. } => {
            let (text, c) = typed(input, cursor as int, key);
            lemma_scrolled_shows_cursor(text, c, 1, input_scroll as int);
            crate::navigation::lemma_typing_keeps_cursor_nonnegative(input, cursor as int, key);
            lemma_newline_count_bound(text.take(clamp_cursor(text, c)));
            assert(text.len() <= input.len() + 1);
            assert(c <= usize::MAX);
            assert(scrolled(text, c, 1, input_scroll as int) <= usize::MAX);
        },
        _ => {},
    }
}

/// A text has no more line breaks than characters.
pub proof fn lemma_newline_count_bound(s: Seq<char>)
    ensures
        newline_count(s) <= s.len(),
    decreases s.len(),
{
    if s.len() > 0 {
        lemma_newline_count_bound(s.drop_last());
    }
}

/// The mode bar names the current mode: the two labels differ, and each
/// contains the mode's name.
pub proof fn lemma_mode_labels_name_modes()
    ensures
        mode_text(Mode::Normal) != mode_text(Mode::Insert),
        crate::text::contains_seq(mode_text(Mode::Insert), "INSERT"@),
        crate::text::contains_seq(mode_text(Mode::Normal), "NORMAL"@),
{
    reveal_strlit("   NORMAL   ");
    reveal_strlit("   INSERT   ");
    reveal_strlit("INSERT");
    reveal_strlit("NORMAL");
    assert(mode_text(Mode::Normal)[3] != mode_text(Mode::Insert)[3]);
    assert(mode_text(Mode::Insert).subrange(3, 9) =~= "INSERT"@);
    assert(crate::text::occurs_at(mode_text(Mode::Insert), "INSERT"@, 3));
    assert(mode_text(Mode::Normal).subrange(3, 9) =~= "NORMAL"@);
    assert(crate::text::occurs_at(mode_text(Mode::Normal), "NORMAL"@, 3));
}

} // verus!
