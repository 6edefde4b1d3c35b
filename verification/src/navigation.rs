//! Editing modes, keys, and the line editor behind the message input.
use vstd::prelude::*;
use crate::text::{char_width, chars_of, lemma_utf8_len_take_step, push_char, utf8_len};

verus! {

/// The two editing modes.
#[derive(Debug, Clone, Copy, PartialEq, Eq, Structural)]
pub enum Mode {
    Normal,
    Insert,
}

/// A key as the terminal reports it. `Media` and `Modifier` carry the
/// position of the media or modifier key in the terminal library's list.
#[derive(Debug, Clone, Copy, PartialEq, Eq, Structural)]
pub enum Key {
    Backspace,
    Enter,
    Left,
    Right,
    Up,
    Down,
    Home,
    End,
    PageUp,
    PageDown,
    Tab,
    BackTab,
    Delete,
    Insert,
    F(u8),
    Char(char),
    Null,
    Esc,
    CapsLock,
    ScrollLock,
    NumLock,
    PrintScreen,
    Pause,
    Menu,
    KeypadBegin,
    Media(u8),
    Modifier(u8),
}

/// Byte offset `b` of `s` falls on a character boundary (or is its end).
pub open spec fn is_byte_boundary(s: Seq<char>, b: int) -> bool {
    exists|k: int| 0 <= k <= s.len() && utf8_len(s.take(k)) == b
}

/// The character index at which byte offset `b` of `s` falls.
pub open spec fn char_index_of_byte(s: Seq<char>, b: int) -> int {
    choose|k: int| 0 <= k <= s.len() && utf8_len(s.take(k)) == b
}

/// Byte offsets of distinct character positions differ.
pub proof fn lemma_byte_offsets_distinct(s: Seq<char>, k1: int, k2: int)
    requires
        0 <= k1 < k2 <= s.len(),
    ensures
        utf8_len(s.take(k1)) < utf8_len(s.take(k2)),
{
    crate::text::lemma_utf8_len_split(s, k1, k2);
    let t = s.subrange(k1, k2);
    assert(t.len() > 0);
    assert(utf8_len(t) >= char_width(t[0]));
}

pub proof fn lemma_char_index_of_byte(s: Seq<char>, k: int)
    requires
        0 <= k <= s.len(),
    ensures
        is_byte_boundary(s, utf8_len(s.take(k)) as int),
        char_index_of_byte(s, utf8_len(s.take(k)) as int) == k,
{
    let b = utf8_len(s.take(k)) as int;
    assert(0 <= k <= s.len() && utf8_len(s.take(k)) == b);
    let j = char_index_of_byte(s, b);
    if j < k {
        lemma_byte_offsets_distinct(s, j, k);
    } else if k < j {
        lemma_byte_offsets_distinct(s, k, j);
    }
}

/// Text and cursor after one key press in the input line. The cursor counts
/// characters, except for `Enter`, which inserts at the byte offset equal to
/// the cursor (the position is then that offset's character index).
pub open spec fn typed(s: Seq<char>, cursor: int, key: Key) -> (Seq<char>, int) {
    match key {
        Key::Backspace => if cursor > 0 {
            let i = if cursor <= s.len() { cursor - 1 } else { s.len() - 1 };
            (s.remove(i), cursor - 1)
        } else {
            (s, cursor)
        },
        Key::Delete => if cursor < s.len() {
            (s.remove(cursor), cursor)
        } else {
            (s, cursor)
        },
        Key::End => (s, s.len() as int),
        Key::Home => (s, 0),
        Key::Enter => (s.insert(char_index_of_byte(s, cursor), '\n'), cursor + 1),
        Key::Left => if cursor > 0 {
            (s, cursor - 1)
        } else {
            (s, cursor)
        },
        Key::Right => if cursor < s.len() {
            (s, cursor + 1)
        } else {
            (s, cursor)
        },
        Key::Char(c) => {
            let i = if cursor <= s.len() { cursor } else { s.len() as int };
            (s.insert(i, c), cursor + 1)
        },
        _ => (s, cursor),
    }
}

/// The inputs on which a key press can be applied: `Backspace` needs a
/// character to remove when the cursor is past the start, and `Enter` a
/// cursor that is a byte boundary; counters stay below `usize::MAX`.
pub open spec fn typing_allowed(s: Seq<char>, cursor: int, key: Key) -> bool {
    &&& key == Key::Backspace && cursor > 0 ==> s.len() > 0
    &&& key == Key::Enter ==> is_byte_boundary(s, cursor) && cursor < usize::MAX
    &&& key is Char ==> cursor < usize::MAX
}

/// Applies one key press to the input line and its cursor.
pub fn typing(input: &mut String, cursor_char_idx: &mut usize, key_code: Key)
    requires
        typing_allowed(old(input)@, *old(cursor_char_idx) as int, key_code),
    ensures
        (final(input)@, *final(cursor_char_idx) as int) == typed(
            old(input)@,
            *old(cursor_char_idx) as int,
            key_code,
        ),
{
    let ghost s = input@;
    let v = chars_of(input.as_str());
    let n = v.len();
    let c = *cursor_char_idx;
    match key_code {
        Key::Backspace => {
            if c > 0 {
                let i = if c <= n { c - 1 } else { n - 1 };
                *input = without_char(&v, i);
                *cursor_char_idx = c - 1;
            }
        },
        Key::Delete => {
            if c < n {
                *input = without_char(&v, c);
            }
        },
        Key::End => {
            *cursor_char_idx = n;
        },
        Key::Home => {
            *cursor_char_idx = 0;
        },
        Key::Enter => {
            let k = char_index_at_byte(&v, c);
            *input = with_char(&v, k, '\n');
            *cursor_char_idx = c + 1;
        },
        Key::Left => {
            if c > 0 {
                *cursor_char_idx = c - 1;
            }
        },
        Key::Right => {
            if c < n {
                *cursor_char_idx = c + 1;
            }
        },
        Key::Char(ch) => {
            let i = if c <= n { c } else { n };
            *input = with_char(&v, i, ch);
            *cursor_char_idx = c + 1;
        },
        _ => {},
    }
}

/// The characters of `v` without the one at `i`.
fn without_char(v: &Vec<char>, i: usize) -> (r: String)
    requires
        i < v@.len(),
    ensures
        r@ == v@.remove(i as int),
{
    let mut r = String::new();
    let mut j: usize = 0;
    while j < v.len()
        invariant
            i < v@.len(),
            j <= v@.len(),
            r@ == (if j <= i { v@.take(j as int) } else { v@.take(j as int).remove(i as int) }),
        decreases v@.len() - j,
    {
        if j != i {
            push_char(&mut r, v[j]);
        }
        proof {
            if j < i {
                assert(v@.take(j + 1) =~= v@.take(j as int).push(v@[j as int]));
            } else if j == i {
                assert(v@.take(j + 1).remove(i as int) =~= v@.take(j as int));
            } else {
                assert(v@.take(j + 1).remove(i as int) =~= v@.take(j as int).remove(i as int).push(
                    v@[j as int],
                ));
            }
        }
        j = j + 1;
    }
    assert(v@.take(v@.len() as int) =~= v@);
    r
}

/// The characters of `v` with `c` inserted at `i`.
fn with_char(v: &Vec<char>, i: usize, c: char) -> (r: String)
    requires
        i <= v@.len(),
    ensures
        r@ == v@.insert(i as int, c),
{
    let mut r = String::new();
    let mut j: usize = 0;
    while j < v.len()
        invariant
            i <= v@.len(),
            j <= v@.len(),
            r@ == (if j <= i { v@.take(j as int) } else { v@.take(j as int).insert(i as int, c) }),
        decreases v@.len() - j,
    {
        if j == i {
            push_char(&mut r, c);
        }
        push_char(&mut r, v[j]);
        proof {
            if j < i {
                assert(v@.take(j + 1) =~= v@.take(j as int).push(v@[j as int]));
            } else if j == i {
                assert(v@.take(j + 1).insert(i as int, c) =~= v@.take(j as int).push(c).push(
                    v@[j as int],
                ));
            } else {
                assert(v@.take(j + 1).insert(i as int, c) =~= v@.take(j as int).insert(
                    i as int,
                    c,
                ).push(v@[j as int]));
            }
        }
        j = j + 1;
    }
    if i == v.len() {
        push_char(&mut r, c);
        assert(v@.take(v@.len() as int).push(c) =~= v@.insert(i as int, c));
    } else {
        assert(v@.take(v@.len() as int).insert(i as int, c) =~= v@.insert(i as int, c));
    }
    r
}

/// The character index at which byte offset `b` of the text falls.
pub fn char_index_at_byte(v: &Vec<char>, b: usize) -> (k: usize)
    requires
        is_byte_boundary(v@, b as int),
    ensures
        k == char_index_of_byte(v@, b as int),
        k <= v@.len(),
{
    let ghost kk = char_index_of_byte(v@, b as int);
    let mut i: usize = 0;
    let mut acc: usize = 0;
    let n = v.len();
    proof {
        lemma_char_index_of_byte(v@, kk);
    }
    while acc < b
        invariant
            n == v@.len(),
            0 <= kk <= v@.len(),
            utf8_len(v@.take(kk)) == b,
            i <= kk,
            acc == utf8_len(v@.take(i as int)),
        decreases b - acc,
    {
        proof {
            if i == kk {
                assert(false);
            }
            lemma_utf8_len_take_step(v@, i as int);
            if i + 1 < kk {
                lemma_byte_offsets_distinct(v@, i + 1, kk);
            }
        }
        acc = acc + crate::text::char_width_of(v[i]);
        i = i + 1;
    }
    proof {
        if i < kk {
            lemma_byte_offsets_distinct(v@, i as int, kk);
        }
    }
    i
}


/// A text of `k` characters takes at least `k` bytes.
pub proof fn lemma_utf8_len_at_least_chars(s: Seq<char>)
    ensures
        utf8_len(s) >= s.len(),
    decreases s.len(),
{
    if s.len() > 0 {
        lemma_utf8_len_at_least_chars(s.drop_first());
    }
}

/// Whatever key is pressed, a cursor inside the text stays inside the text.
pub proof fn lemma_typing_keeps_cursor_in_text(s: Seq<char>, cursor: int, key: Key)
    requires
        0 <= cursor <= s.len(),
        typing_allowed(s, cursor, key),
    ensures
        0 <= typed(s, cursor, key).1 <= typed(s, cursor, key).0.len(),
{
    if key == Key::Enter {
        let k = char_index_of_byte(s, cursor);
        lemma_utf8_len_at_least_chars(s.take(k));
    }
}

/// Typing a character and then pressing Backspace gives back the text and the cursor.
pub proof fn lemma_char_then_backspace(s: Seq<char>, cursor: int, c: char)
    requires
        0 <= cursor <= s.len(),
    ensures
        ({
            let (t, k) = typed(s, cursor, Key::Char(c));
            typed(t, k, Key::Backspace) == (s, cursor)
        }),
{
    let (t, k) = typed(s, cursor, Key::Char(c));
    assert(t.remove(cursor) =~= s);
}

/// Left and then Right bring a cursor inside the text back where it was.
pub proof fn lemma_left_then_right(s: Seq<char>, cursor: int)
    requires
        0 < cursor <= s.len(),
    ensures
        ({
            let (t, k) = typed(s, cursor, Key::Left);
            typed(t, k, Key::Right) == (s, cursor)
        }),
{
}

/// Only keys that edit change the text: moving keys keep it.
pub proof fn lemma_moving_keys_keep_text(s: Seq<char>, cursor: int, key: Key)
    requires
        key == Key::Left || key == Key::Right || key == Key::Home || key == Key::End,
    ensures
        typed(s, cursor, key).0 == s,
{
}


/// Delete removes the character under a cursor inside the text: one
/// character fewer, those before the cursor kept in place, those after it
/// moved one place left; the cursor stays.
pub proof fn lemma_delete_removes_char_at_cursor(s: Seq<char>, cursor: int)
    requires
        0 <= cursor < s.len(),
    ensures
        ({
            let (t, k) = typed(s, cursor, Key::Delete);
            &&& t.len() == s.len() - 1
            &&& forall|i: int| 0 <= i < cursor ==> t[i] == s[i]
            &&& forall|i: int| cursor <= i < t.len() ==> t[i] == s[i + 1]
            &&& k == cursor
        }),
{
}

/// Backspace with the cursor inside the text, past its start, removes the
/// character before the cursor and moves the cursor back by one.
pub proof fn lemma_backspace_removes_char_before_cursor(s: Seq<char>, cursor: int)
    requires
        0 < cursor <= s.len(),
    ensures
        ({
            let (t, k) = typed(s, cursor, Key::Backspace);
            &&& t.len() == s.len() - 1
            &&& forall|i: int| 0 <= i < cursor - 1 ==> t[i] == s[i]
            &&& forall|i: int| cursor - 1 <= i < t.len() ==> t[i] == s[i + 1]
            &&& k == cursor - 1
        }),
{
}

/// A character key puts the character at a cursor inside the text and moves
/// the cursor past it; the rest of the text is kept around it.
pub proof fn lemma_char_inserted_at_cursor(s: Seq<char>, cursor: int, c: char)
    requires
        0 <= cursor <= s.len(),
    ensures
        ({
            let (t, k) = typed(s, cursor, Key::Char(c));
            &&& t.len() == s.len() + 1
            &&& t[cursor] == c
            &&& forall|i: int| 0 <= i < cursor ==> t[i] == s[i]
            &&& forall|i: int| cursor < i < t.len() ==> t[i] == s[i - 1]
            &&& k == cursor + 1
        }),
{
}

/// Enter at a byte offset on a character boundary puts a line break where
/// that offset falls, keeps the text around it, and advances the cursor by one.
pub proof fn lemma_enter_breaks_line_at_byte_offset(s: Seq<char>, cursor: int)
    requires
        is_byte_boundary(s, cursor),
    ensures
        ({
            let (t, k) = typed(s, cursor, Key::Enter);
            let j = char_index_of_byte(s, cursor);
            &&& 0 <= j <= s.len()
            &&& utf8_len(s.take(j)) == cursor
            &&& t.len() == s.len() + 1
            &&& t[j] == '\n'
            &&& forall|i: int| 0 <= i < j ==> t[i] == s[i]
            &&& forall|i: int| j < i < t.len() ==> t[i] == s[i - 1]
            &&& k == cursor + 1
        }),
{
}

/// The moving keys put the cursor where their names say, within the text:
/// Home at the start, End at the end, Left one back, Right one forward.
pub proof fn lemma_moving_keys_move_cursor(s: Seq<char>, cursor: int)
    requires
        0 <= cursor <= s.len(),
    ensures
        typed(s, cursor, Key::Home).1 == 0,
        typed(s, cursor, Key::End).1 == s.len(),
        cursor > 0 ==> typed(s, cursor, Key::Left).1 == cursor - 1,
        cursor == 0 ==> typed(s, cursor, Key::Left).1 == 0,
        cursor < s.len() ==> typed(s, cursor, Key::Right).1 == cursor + 1,
        cursor == s.len() ==> typed(s, cursor, Key::Right).1 == s.len(),
{
}


/// A key press never moves a cursor below the start of the text.
pub proof fn lemma_typing_keeps_cursor_nonnegative(s: Seq<char>, cursor: int, key: Key)
    requires
        0 <= cursor,
        typing_allowed(s, cursor, key),
    ensures
        0 <= typed(s, cursor, key).1,
{
}

} // verus!
