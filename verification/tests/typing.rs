use websearch::animation::{AnimatedMessage, FRAME_INTERVAL_NANOS};

const START: u64 = 1_000_000_000;
const STEP: u64 = FRAME_INTERVAL_NANOS + 1;

#[test]
fn new_message_shows_nothing() {
    let message = AnimatedMessage::new("héllo".to_string(), START);
    assert_eq!(message.full_text(), "héllo");
    assert_eq!(message.visible_text(), "");
    assert_eq!(message.index(), 0);
    assert!(!message.finished());
}

#[test]
fn frame_interval_is_twenty_milliseconds() {
    assert_eq!(FRAME_INTERVAL_NANOS, 20_000_000);
}

#[test]
fn nothing_happens_before_the_interval_has_passed() {
    let mut message = AnimatedMessage::new("abc".to_string(), START);
    message.update(START);
    message.update(START + FRAME_INTERVAL_NANOS);
    message.update(START - 5);
    message.update(0);
    assert_eq!(message.visible_text(), "");
    assert_eq!(message.index(), 0);
    assert!(!message.finished());
}

#[test]
fn one_character_per_step() {
    let mut message = AnimatedMessage::new("héllo".to_string(), START);
    message.update(START + STEP);
    assert_eq!(message.visible_text(), "h");
    message.update(START + STEP + FRAME_INTERVAL_NANOS);
    assert_eq!(message.visible_text(), "h");
    message.update(START + 2 * STEP);
    assert_eq!(message.visible_text(), "hé");
    message.update(START + 3 * STEP);
    assert_eq!(message.visible_text(), "hél");
    message.update(START + 4 * STEP);
    assert_eq!(message.visible_text(), "héll");
    assert_eq!(message.index(), 4);
    assert!(!message.finished());
    message.update(START + 5 * STEP);
    assert_eq!(message.visible_text(), "héllo");
    assert_eq!(message.index(), 5);
    assert!(message.finished());
}

#[test]
fn finished_message_does_not_change() {
    let mut message = AnimatedMessage::new("a".to_string(), START);
    message.update(START + STEP);
    assert!(message.finished());
    message.update(START + 10 * STEP);
    assert_eq!(message.visible_text(), "a");
    assert_eq!(message.index(), 1);
}

#[test]
fn empty_message_finishes_with_the_first_step() {
    let mut message = AnimatedMessage::new(String::new(), START);
    assert!(!message.finished());
    message.update(START + STEP);
    assert!(message.finished());
    assert_eq!(message.visible_text(), "");
    assert_eq!(message.index(), 1);
}

#[test]
fn skipping_ends_the_animation_where_it_stands() {
    let mut message = AnimatedMessage::new("abcdef".to_string(), START);
    message.update(START + STEP);
    message.update(START + 2 * STEP);
    message.skip();
    assert!(message.finished());
    assert_eq!(message.visible_text(), "ab");
    assert_eq!(message.full_text(), "abcdef");
    message.update(START + 3 * STEP);
    assert_eq!(message.visible_text(), "ab");
}
