use kyber::KeyboardControl;

#[test]
fn unrecognized_is_none() {
    let mut control = KeyboardControl::<()>::new(Vec::new());

    control.on_text("o");

    assert_eq!(control.take(), None);
}

#[test]
fn keyboard_control_single_char() {
    let mut control = KeyboardControl::new(vec![("j", "down")]);

    control.on_text("j");

    assert_eq!(control.take(), Some("down"));
}

#[test]
fn char_sequence() {
    let mut control = KeyboardControl::new(vec![("of", "open_file")]);

    control.on_text("o");
    control.on_text("f");

    assert_eq!(control.take(), Some("open_file"));
}

#[test]
fn sequence_of_actions() {
    let mut control = KeyboardControl::new(vec![("j", "cursor_down"), ("of", "open_file")]);

    control.on_text("j");
    control.on_text("o");
    control.on_text("f");

    assert_eq!(control.take(), Some("cursor_down"));
    assert_eq!(control.take(), Some("open_file"));
    assert_eq!(control.take(), None);
}

#[test]
fn unrecognized_input() {
    let mut control = KeyboardControl::new(vec![("of", "open_file")]);

    control.on_text("j");
    control.on_text("o");
    control.on_text("f");

    assert_eq!(control.take(), Some("open_file"));
}

#[test]
fn unrecognized_partial_input() {
    let mut control = KeyboardControl::new(vec![("of", "open_file")]);

    control.on_text("o");
    control.on_text("r");
    control.on_text("o");
    control.on_text("f");

    assert_eq!(control.take(), Some("open_file"));
}

#[test]
fn prefixed_free() {
    let mut control = KeyboardControl::new(vec![("f", "cursor_down"), ("of", "open_file")]);

    control.on_text("o");
    control.on_text("f");

    assert_eq!(control.take(), Some("open_file"));
}

#[test]
fn three_char_sequence() {
    let mut control = KeyboardControl::new(vec![("j", "cursor_down"), ("oof", "open_file")]);

    control.on_text("o");
    control.on_text("o");
    control.on_text("j");

    assert_eq!(control.take(), Some("cursor_down"));
}

#[test]
fn captial_char() {
    let mut control = KeyboardControl::new(vec![("J", "cursor_down")]);

    control.on_text("J");

    assert_eq!(control.take(), Some("cursor_down"));
}

#[test]
fn multi_letter_button() {
    let mut control = KeyboardControl::new(vec![("<Tab>", "cursor_down")]);

    control.on_key("Tab");

    assert_eq!(control.take(), Some("cursor_down"));
}

#[test]
fn single_letter_key_is_not_recorded() {
    let mut control = KeyboardControl::new(vec![("<J>", "cursor_down")]);

    control.on_key("J");

    assert_eq!(control.take(), None);
}

#[test]
fn no_bindings_drops_input() {
    let mut control = KeyboardControl::<()>::new(Vec::new());

    control.on_text("abc");
    assert_eq!(control.take(), None);
    control.on_text("");
    assert_eq!(control.take(), None);
}

#[test]
fn waits_for_more_input() {
    let mut control = KeyboardControl::new(vec![("of", "open_file")]);

    control.on_text("o");
    assert_eq!(control.take(), None);
    control.on_text("f");
    assert_eq!(control.take(), Some("open_file"));
}
