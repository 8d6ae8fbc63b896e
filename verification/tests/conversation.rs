use eliza::{Eliza, Outcome};

fn say(eliza: &mut Eliza, input: &str) -> String {
    // trim trailing whitespace: the conjugated text keeps the line's
    // trailing spaces, which are invisible on screen
    match eliza.respond(input) {
        Outcome::Say(s) => s.trim_end().to_string(),
        Outcome::ShutUp => "Shut up...".to_string(),
    }
}

#[test]
fn hello_and_repeat() {
    let mut e = Eliza::new();
    assert_eq!(say(&mut e, "hello"), "How do you do... please state your problem.");
    assert_eq!(say(&mut e, "hello"), "Please don't repeat yourself!");
}

#[test]
fn no_keyword_found() {
    let mut e = Eliza::new();
    assert_eq!(say(&mut e, "bye"), "Say, do you have any psychological problems?");
    // same again -> repeat message, pointer untouched
    assert_eq!(say(&mut e, "bye"), "Please don't repeat yourself!");
}

#[test]
fn conjugation_via_keyword_slice() {
    let mut e = Eliza::new();
    assert_eq!(say(&mut e, "i am sad"), "Did you come to me because you are sad");
}

#[test]
fn reverse_conjugation_with_exclamation() {
    let mut e = Eliza::new();
    assert_eq!(say(&mut e, "i hate you"), "We were discussing you, not me.");
    assert_eq!(say(&mut e, "you hate me"), "Oh, I hate you");
}

#[test]
fn apostrophe_stripped_into_keyword() {
    let mut e = Eliza::new();
    assert_eq!(say(&mut e, "i'm sad"), "Did you come to me because you are sad");
}

#[test]
fn rotation() {
    let mut e = Eliza::new();
    let expects = [
        ("what", "Why do you ask?"),
        ("what is", "Does that question interest you?"),
        ("what now", "What answer would please you the most?"),
        ("what why", "What do you think?"),
        ("what when", "Are such questions on your mind often?"),
        ("what where", "What is it that you really want to know?"),
        ("what who", "Have you asked anyone else?"),
        ("what how", "Have you asked such questions before?"),
        ("what hello", "What else comes to mind when you ask that?"),
        ("what again", "Why do you ask?"), // wraps around
    ];
    for (input, want) in expects {
        assert_eq!(say(&mut e, input), want);
    }
}

#[test]
fn star_reply_appends_conjugated_remainder() {
    let mut e = Eliza::new();
    assert_eq!(say(&mut e, "can you help me"), "Don't you believe that I can help you");
    assert_eq!(say(&mut e, "you are a computer"), "What makes you think I am a computer");
    assert_eq!(say(&mut e, "i want candy"), "What would it mean to you if you got candy");
    assert_eq!(say(&mut e, "i want a car"), "Why do you want a car");
    assert_eq!(say(&mut e, "i want more"), "Suppose you soon got more");
}

#[test]
fn shut_variants() {
    let mut e = Eliza::new();
    assert!(matches!(e.respond("shut up"), Outcome::ShutUp));
    let mut e = Eliza::new();
    assert!(matches!(e.respond("SHUT"), Outcome::ShutUp));
    // case-sensitive: mixed case and apostrophe-split
    // forms do NOT trigger the shut-down.
    let mut e = Eliza::new();
    assert_eq!(say(&mut e, "Shut"), "Say, do you have any psychological problems?");
    let mut e = Eliza::new();
    assert_eq!(say(&mut e, "s'hut"), "Say, do you have any psychological problems?");
}

#[test]
fn last_occurrence_position() {
    let mut e = Eliza::new();
    // "CAN YOU" appears twice; the LAST occurrence is used, so the
    // remainder after it is empty.
    assert_eq!(say(&mut e, "can you can you"), "Don't you believe that I can");
    let mut e = Eliza::new();
    assert_eq!(say(&mut e, "hello hello"), "How do you do... please state your problem.");
}

#[test]
fn keyword_priority() {
    let mut e = Eliza::new();
    // "YOU ARE" (priority 3) beats "YOU " (priority 13)
    assert_eq!(say(&mut e, "you are"), "What makes you think I am");
}
