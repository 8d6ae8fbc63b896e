//! The decisions of the terminal conversation: what each key does to the
//! line being typed, what a submitted line adds to the transcript, and how
//! far the transcript scrolls so that its newest lines stay visible.

use vstd::prelude::*;
use vstd::string::StringExecFns;
use vstd::utf8::{
    decode_utf8, encode_scalar, encode_utf8, is_char_boundary, length_of_first_scalar,
    valid_first_scalar, valid_utf8,
};
use crate::text::push_all;
use crate::utf8_facts;
use crate::{Eliza, Outcome};

verus! {

broadcast use vstd::string::group_string_axioms;

/// A key pressed at the terminal.
pub enum Key {
    Char(char),
    Enter,
    Backspace,
    Delete,
    Left,
    Right,
    Home,
    End,
    Esc,
    Other,
}

/// The line being typed, as UTF-8 bytes, and the cursor as a byte
/// position in it.
pub struct InputLine {
    pub text: Vec<u8>,
    pub cursor: usize,
}

/// What the terminal does after a key.
pub enum KeyAction {
    /// Keep reading keys.
    Continue,
    /// Hand this line to the conversation.
    Submit(String),
    /// Leave the program.
    Quit,
}

/// Who wrote a line of the transcript.
pub enum Speaker {
    User,
    Eliza,
}

/// The lines shown so far, and whether the conversation has ended.
pub struct Transcript {
    pub lines: Vec<(String, Speaker)>,
    pub ended: bool,
}

/// The number of bytes of the character that starts at byte `c`.
pub open spec fn char_width_at(text: Seq<u8>, c: int) -> int {
    length_of_first_scalar(text.skip(c))
}

/// The key can be handled on this line: typing, Backspace and Delete
/// insert or remove at a byte position, which must fall on a character
/// boundary (the line would panic otherwise).
pub open spec fn key_accepted(text: Seq<u8>, cursor: int, key: Key, ctrl: bool) -> bool {
    match key {
        Key::Char(ch) => (ctrl && ch == 'c') || is_char_boundary(text, cursor),
        Key::Backspace => cursor == 0 || is_char_boundary(text, cursor - 1),
        Key::Delete => cursor >= text.len() || is_char_boundary(text, cursor),
        _ => true,
    }
}

/// The new line and cursor after an editing key (every key but Esc,
/// Enter and Ctrl+C): a typed character is inserted at the cursor, which
/// then moves on by one byte; Backspace moves the cursor back by one byte
/// and removes the character there; Delete removes the character at the
/// cursor; Left and Right move the cursor by one byte within the line; Home
/// and End move it to the start and the end of the line.
pub open spec fn edited(text: Seq<u8>, cursor: int, key: Key) -> (Seq<u8>, int) {
    match key {
        Key::Char(ch) => (text.take(cursor) + encode_utf8(seq![ch]) + text.skip(cursor), cursor + 1),
        Key::Backspace => if cursor > 0 {
            (
                text.take(cursor - 1) + text.skip(cursor - 1 + char_width_at(text, cursor - 1)),
                cursor - 1,
            )
        } else {
            (text, cursor)
        },
        Key::Delete => if cursor < text.len() {
            (text.take(cursor) + text.skip(cursor + char_width_at(text, cursor)), cursor)
        } else {
            (text, cursor)
        },
        Key::Left => if cursor > 0 {
            (text, cursor - 1)
        } else {
            (text, cursor)
        },
        Key::Right => if cursor + 1 <= text.len() {
            (text, cursor + 1)
        } else {
            (text, text.len() as int)
        },
        Key::Home => (text, 0),
        Key::End => (text, text.len() as int),
        _ => (text, cursor),
    }
}

/// The UTF-8 bytes of one character.
pub fn encode_char(ch: char) -> (r: Vec<u8>)
    ensures
        r@ == encode_utf8(seq![ch]),
{
    proof {
        vstd::utf8::char_is_scalar(ch);
        let s = seq![ch];
        assert(s.drop_first() =~= Seq::<char>::empty());
        assert(encode_utf8(s.drop_first()) =~= Seq::<u8>::empty());
        assert(encode_utf8(s) == encode_scalar(s[0] as u32) + encode_utf8(s.drop_first()));
        assert(encode_utf8(s) =~= encode_scalar(ch as u32));
    }
    let v = ch as u32;
    if v <= 0x7F {
        vec![(v & 0x7F) as u8]
    } else if v <= 0x7FF {
        vec![0xC0 | ((v >> 6) & 0x1F) as u8, 0x80 | (v & 0x3F) as u8]
    } else if v <= 0xFFFF {
        vec![
            0xE0 | ((v >> 12) & 0x0F) as u8,
            0x80 | ((v >> 6) & 0x3F) as u8,
            0x80 | (v & 0x3F) as u8,
        ]
    } else {
        vec![
            0xF0 | ((v >> 18) & 0x7) as u8,
            0x80 | ((v >> 12) & 0x3F) as u8,
            0x80 | ((v >> 6) & 0x3F) as u8,
            0x80 | (v & 0x3F) as u8,
        ]
    }
}

/// Whether byte `c` of a well-formed text is a character boundary.
fn is_boundary(text: &Vec<u8>, c: usize) -> (r: bool)
    requires
        valid_utf8(text@),
        c <= text@.len(),
    ensures
        r == is_char_boundary(text@, c as int),
{
    if c == text.len() {
        proof {
            vstd::utf8::is_char_boundary_start_end_of_seq(text@);
        }
        true
    } else {
        proof {
            vstd::utf8::is_char_boundary_iff_not_is_continuation_byte(text@, c as int);
        }
        !(0x80 <= text[c] && text[c] <= 0xBF)
    }
}

/// The number of bytes of the character that starts at byte `c`.
fn char_width(text: &Vec<u8>, c: usize) -> (r: usize)
    requires
        valid_utf8(text@),
        c < text@.len(),
        is_char_boundary(text@, c as int),
    ensures
        r == char_width_at(text@, c as int),
        c + r <= text@.len(),
{
    proof {
        utf8_facts::lemma_next_boundary(text@, c as int);
        assert(valid_first_scalar(text@.skip(c as int)));
        assert(text@.skip(c as int)[0] == text@[c as int]);
    }
    let b = text[c];
    if b <= 0x7F {
        1
    } else if b <= 0xDF {
        2
    } else if b <= 0xEF {
        3
    } else {
        4
    }
}

/// Whether `on_key` can handle the key on this line (see `key_accepted`).
pub fn accepts_key(line: &InputLine, key: &Key, ctrl: bool) -> (r: bool)
    requires
        valid_utf8(line.text@),
        line.cursor <= line.text@.len(),
    ensures
        r == key_accepted(line.text@, line.cursor as int, *key, ctrl),
{
    match key {
        Key::Char(ch) => (ctrl && *ch == 'c') || is_boundary(&line.text, line.cursor),
        Key::Backspace => line.cursor == 0 || is_boundary(&line.text, line.cursor - 1),
        Key::Delete => line.cursor >= line.text.len() || is_boundary(&line.text, line.cursor),
        _ => true,
    }
}

/// `text` with `cut` bytes from `at` replaced by `with`.
fn splice(text: &Vec<u8>, at: usize, cut: usize, with: &[u8]) -> (r: Vec<u8>)
    requires
        at + cut <= text.len(),
    ensures
        r@ == text@.take(at as int) + with@ + text@.skip(at + cut),
{
    let mut r: Vec<u8> = Vec::new();
    let mut j: usize = 0;
    while j < at
        invariant
            at + cut <= text@.len(),
            j <= at,
            r@ == text@.take(j as int),
        decreases at - j,
    {
        r.push(text[j]);
        j += 1;
        assert(text@.take(j as int) =~= text@.take(j - 1).push(text@[j - 1]));
    }
    push_all(&mut r, with);
    let mut m: usize = at + cut;
    let ghost mid = r@;
    while m < text.len()
        invariant
            at + cut <= m <= text@.len(),
            r@ == mid + text@.subrange(at + cut, m as int),
        decreases text@.len() - m,
    {
        r.push(text[m]);
        m += 1;
        assert(text@.subrange(at + cut, m as int) =~= text@.subrange(at + cut, m - 1).push(
            text@[m - 1],
        ));
    }
    assert(text@.subrange(at + cut, m as int) =~= text@.skip(at + cut));
    r
}

/// Handles one key: Esc, or C with Ctrl held, quits; Enter submits the
/// line and clears it; every other key edits the line as `edited` says and
/// the terminal goes on.
pub fn on_key(line: &mut InputLine, key: Key, ctrl: bool) -> (a: KeyAction)
    requires
        valid_utf8(old(line).text@),
        old(line).cursor <= old(line).text@.len(),
        key_accepted(old(line).text@, old(line).cursor as int, key, ctrl),
    ensures
        valid_utf8(final(line).text@),
        final(line).cursor <= final(line).text@.len(),
        (key is Esc || (ctrl && key == Key::Char('c'))) ==> {
            &&& a is Quit
            &&& final(line).text@ == old(line).text@
            &&& final(line).cursor == old(line).cursor
        },
        key is Enter ==> {
            &&& a matches KeyAction::Submit(s) && s@ == decode_utf8(old(line).text@)
            &&& final(line).text@ == Seq::<u8>::empty()
            &&& final(line).cursor == 0
        },
        !(key is Esc || key is Enter || (ctrl && key == Key::Char('c'))) ==> {
            &&& a is Continue
            &&& final(line).text@ == edited(old(line).text@, old(line).cursor as int, key).0
            &&& final(line).cursor == edited(old(line).text@, old(line).cursor as int, key).1
        },
{
    let ghost t = line.text@;
    let ghost c = line.cursor as int;
    match key {
        Key::Esc => KeyAction::Quit,
        Key::Char(ch) => {
            if ctrl && ch == 'c' {
                KeyAction::Quit
            } else {
                let bytes = encode_char(ch);
                proof {
                    vstd::utf8::encode_utf8_valid_utf8(seq![ch]);
                    utf8_facts::lemma_encode_char_nonempty(ch);
                    vstd::utf8::valid_utf8_split(t, c);
                    assert(t.subrange(0, c) =~= t.take(c));
                    assert(t.subrange(c, t.len() as int) =~= t.skip(c));
                    vstd::utf8::valid_utf8_concat(t.take(c), bytes@);
                    vstd::utf8::valid_utf8_concat(t.take(c) + bytes@, t.skip(c));
                }
                let new_text = splice(&line.text, line.cursor, 0, bytes.as_slice());
                assert(new_text@ =~= t.take(c) + bytes@ + t.skip(c));
                line.text = new_text;
                let n = line.text.len();
                assert(line.cursor < n);
                line.cursor = line.cursor + 1;
                KeyAction::Continue
            }
        },
        Key::Enter => {
            let s = crate::string_from_utf8(line.text.as_slice());
            line.text = Vec::new();
            line.cursor = 0;
            proof {
                utf8_facts::lemma_ascii_valid(Seq::<u8>::empty());
            }
            KeyAction::Submit(s)
        },
        Key::Backspace => {
            if line.cursor > 0 {
                let at = line.cursor - 1;
                let w = char_width(&line.text, at);
                proof {
                    utf8_facts::lemma_remove_char(t, at as int);
                }
                let new_text = splice(&line.text, at, w, &[]);
                assert(new_text@ =~= t.take(at as int) + t.skip(at + w));
                line.text = new_text;
                line.cursor = at;
            }
            KeyAction::Continue
        },
        Key::Delete => {
            if line.cursor < line.text.len() {
                let at = line.cursor;
                let w = char_width(&line.text, at);
                proof {
                    utf8_facts::lemma_remove_char(t, at as int);
                }
                let new_text = splice(&line.text, at, w, &[]);
                assert(new_text@ =~= t.take(at as int) + t.skip(at + w));
                line.text = new_text;
            }
            KeyAction::Continue
        },
        Key::Left => {
            if line.cursor > 0 {
                line.cursor = line.cursor - 1;
            }
            KeyAction::Continue
        },
        Key::Right => {
            if line.cursor < line.text.len() {
                line.cursor = line.cursor + 1;
            }
            KeyAction::Continue
        },
        Key::Home => {
            line.cursor = 0;
            KeyAction::Continue
        },
        Key::End => {
            line.cursor = line.text.len();
            KeyAction::Continue
        },
        Key::Other => KeyAction::Continue,
    }
}

/// The text shown for the answer to a line: the reply, or "Shut up..."
/// when the line asked to stop.
pub open spec fn shown_answer(answer: Option<Seq<u8>>) -> Seq<char> {
    match answer {
        Some(b) => vstd::utf8::decode_utf8(b),
        None => "Shut up..."@,
    }
}

/// Submits a line: the transcript gets the line echoed after "? " as the
/// user's, then the answer as Eliza's ("Shut up..." for a line that asks
/// to stop, which also ends the conversation).
pub fn submit(t: &mut Transcript, e: &mut Eliza, line: String)
    requires
        old(e).wf(),
    ensures
        final(e).wf(),
        final(e)@ == crate::turn(old(e)@, vstd::utf8::encode_utf8(line@)).0,
        final(t).lines@.len() == old(t).lines@.len() + 2,
        forall|i: int| 0 <= i < old(t).lines@.len() ==> final(t).lines@[i] == old(t).lines@[i],
        final(t).lines@[old(t).lines@.len() as int].0@ == "? "@ + line@,
        final(t).lines@[old(t).lines@.len() as int].1 is User,
        final(t).lines@[old(t).lines@.len() as int + 1].0@ == shown_answer(
            crate::turn(old(e)@, vstd::utf8::encode_utf8(line@)).1,
        ),
        final(t).lines@[old(t).lines@.len() as int + 1].1 is Eliza,
        final(t).ended == (old(t).ended || crate::turn(
            old(e)@,
            vstd::utf8::encode_utf8(line@),
        ).1 is None),
{
    let mut echo = "? ".to_string();
    echo.append(line.as_str());
    t.lines.push((echo, Speaker::User));
    match e.respond(line.as_str()) {
        Outcome::Say(text) => {
            t.lines.push((text, Speaker::Eliza));
        },
        Outcome::ShutUp => {
            t.lines.push(("Shut up...".to_string(), Speaker::Eliza));
            t.ended = true;
        },
    }
}

/// How many lines to scroll past so that the newest `height` of
/// `line_count` lines are shown, as a `u16` (taken modulo 65536).
pub fn scroll_offset(line_count: usize, height: usize) -> (r: u16)
    ensures
        r as int == (if line_count > height {
            line_count - height
        } else {
            0
        }) % 65536,
{
    let hidden: usize = if line_count > height {
        line_count - height
    } else {
        0
    };
    (hidden % 65536) as u16
}

} // verus!
