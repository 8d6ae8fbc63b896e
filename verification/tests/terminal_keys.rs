use eliza::terminal::{
    accepts_key, encode_char, on_key, scroll_offset, submit, InputLine, Key, KeyAction, Speaker,
    Transcript,
};
use eliza::Eliza;

fn line(text: &str, cursor: usize) -> InputLine {
    InputLine { text: text.as_bytes().to_vec(), cursor }
}

fn text_of(l: &InputLine) -> String {
    String::from_utf8(l.text.clone()).unwrap()
}

#[test]
fn typing_inserts_at_the_cursor() {
    let mut l = line("", 0);
    assert!(matches!(on_key(&mut l, Key::Char('h'), false), KeyAction::Continue));
    assert!(matches!(on_key(&mut l, Key::Char('i'), false), KeyAction::Continue));
    assert_eq!((text_of(&l), l.cursor), ("hi".to_string(), 2));
    on_key(&mut l, Key::Left, false);
    on_key(&mut l, Key::Char('é'), false);
    // the cursor counts bytes and moves on by one: it now stands inside "é"
    assert_eq!((text_of(&l), l.cursor), ("héi".to_string(), 2));
    assert!(!accepts_key(&l, &Key::Char('x'), false));
    assert!(accepts_key(&l, &Key::Right, false));
    on_key(&mut l, Key::Right, false);
    assert!(accepts_key(&l, &Key::Char('x'), false));
    on_key(&mut l, Key::Char('x'), false);
    assert_eq!((text_of(&l), l.cursor), ("héxi".to_string(), 4));
    // Ctrl with another letter still types it
    on_key(&mut l, Key::Char('a'), true);
    assert_eq!((text_of(&l), l.cursor), ("héxai".to_string(), 5));
}

#[test]
fn backspace_and_delete() {
    let mut l = line("abc", 2);
    on_key(&mut l, Key::Backspace, false);
    assert_eq!((text_of(&l), l.cursor), ("ac".to_string(), 1));
    on_key(&mut l, Key::Delete, false);
    assert_eq!((text_of(&l), l.cursor), ("a".to_string(), 1));
    on_key(&mut l, Key::Delete, false);
    assert_eq!((text_of(&l), l.cursor), ("a".to_string(), 1));
    let mut l = line("abc", 0);
    on_key(&mut l, Key::Backspace, false);
    assert_eq!((text_of(&l), l.cursor), ("abc".to_string(), 0));
    // a whole character goes
    let mut l = line("aéb", 1);
    on_key(&mut l, Key::Delete, false);
    assert_eq!((text_of(&l), l.cursor), ("ab".to_string(), 1));
    let mut l = line("aéb", 3);
    assert!(!accepts_key(&l, &Key::Backspace, false));
    let mut l2 = line("aéb", 2);
    assert!(accepts_key(&l2, &Key::Backspace, false));
    on_key(&mut l2, Key::Backspace, false);
    assert_eq!((text_of(&l2), l2.cursor), ("ab".to_string(), 1));
    assert!(accepts_key(&l, &Key::Left, false));
    on_key(&mut l, Key::Left, false);
    assert_eq!(l.cursor, 2);
}

#[test]
fn cursor_moves() {
    let mut l = line("abc", 1);
    on_key(&mut l, Key::Right, false);
    on_key(&mut l, Key::Right, false);
    on_key(&mut l, Key::Right, false);
    assert_eq!(l.cursor, 3);
    on_key(&mut l, Key::Home, false);
    assert_eq!(l.cursor, 0);
    on_key(&mut l, Key::Left, false);
    assert_eq!(l.cursor, 0);
    on_key(&mut l, Key::End, false);
    assert_eq!(l.cursor, 3);
    assert!(matches!(on_key(&mut l, Key::Other, false), KeyAction::Continue));
    assert_eq!((text_of(&l), l.cursor), ("abc".to_string(), 3));
    // End goes to the byte length
    let mut l = line("é", 0);
    on_key(&mut l, Key::End, false);
    assert_eq!(l.cursor, 2);
}

#[test]
fn enter_submits_and_clears() {
    let mut l = line("i am sad", 4);
    match on_key(&mut l, Key::Enter, false) {
        KeyAction::Submit(s) => assert_eq!(s, "i am sad"),
        _ => panic!("Enter must submit"),
    }
    assert_eq!((text_of(&l), l.cursor), (String::new(), 0));
}

#[test]
fn esc_and_ctrl_c_quit() {
    let mut l = line("abc", 1);
    assert!(matches!(on_key(&mut l, Key::Esc, false), KeyAction::Quit));
    assert!(matches!(on_key(&mut l, Key::Esc, true), KeyAction::Quit));
    assert!(matches!(on_key(&mut l, Key::Char('c'), true), KeyAction::Quit));
    assert_eq!((text_of(&l), l.cursor), ("abc".to_string(), 1));
    assert!(matches!(on_key(&mut l, Key::Char('c'), false), KeyAction::Continue));
    assert_eq!(text_of(&l), "acbc");
}

#[test]
fn characters_encode_as_utf8() {
    assert_eq!(encode_char('a'), vec![0x61]);
    assert_eq!(encode_char('é'), "é".as_bytes().to_vec());
    assert_eq!(encode_char('€'), "€".as_bytes().to_vec());
    assert_eq!(encode_char('😀'), "😀".as_bytes().to_vec());
}

#[test]
fn submit_echoes_and_answers() {
    let mut e = Eliza::new();
    let mut t = Transcript { lines: Vec::new(), ended: false };
    submit(&mut t, &mut e, "hello".to_string());
    assert_eq!(t.lines.len(), 2);
    assert_eq!(t.lines[0].0, "? hello");
    assert!(matches!(t.lines[0].1, Speaker::User));
    assert_eq!(t.lines[1].0, "How do you do... please state your problem.");
    assert!(matches!(t.lines[1].1, Speaker::Eliza));
    assert!(!t.ended);
    submit(&mut t, &mut e, "shut up".to_string());
    assert_eq!(t.lines.len(), 4);
    assert_eq!(t.lines[2].0, "? shut up");
    assert_eq!(t.lines[3].0, "Shut up...");
    assert!(t.ended);
}

#[test]
fn scroll_keeps_the_newest_lines() {
    assert_eq!(scroll_offset(10, 4), 6);
    assert_eq!(scroll_offset(3, 4), 0);
    assert_eq!(scroll_offset(4, 4), 0);
    assert_eq!(scroll_offset(70000, 0), 4464);
}
