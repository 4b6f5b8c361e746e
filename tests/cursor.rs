use kyber::{Cursor, Direction};

#[test]
fn default_is_at_0() {
    assert_eq!(Cursor::default().byte_pos(""), 0);
}

#[test]
fn move_right_puts_at_one() {
    let mut cursor = Cursor::default();

    cursor.do_move(Direction::Right);

    assert_eq!(cursor.byte_pos("foo"), 1);
}

#[test]
fn does_not_move_past_content() {
    let mut cursor = Cursor::default();

    cursor.do_move(Direction::Right);

    assert_eq!(cursor.byte_pos("x"), 0);
}

#[test]
fn down_goes_to_next_line() {
    let mut cursor = Cursor::default();

    cursor.do_move(Direction::Down);

    assert_eq!(cursor.byte_pos("x\ny"), 2);
}

#[test]
fn windows_newlines() {
    let mut cursor = Cursor::default();

    cursor.do_move(Direction::Down);

    assert_eq!(cursor.byte_pos("x\r\ny"), 3);
}

#[test]
fn col_past_first_line() {
    let mut cursor = Cursor::default();

    cursor.do_move(Direction::Right);
    cursor.do_move(Direction::Right);
    cursor.do_move(Direction::Right);

    assert_eq!(cursor.byte_pos("x\ny"), 0);
}

#[test]
fn row_past_last_line() {
    let mut cursor = Cursor::default();

    cursor.do_move(Direction::Down);

    assert_eq!(cursor.byte_pos("foo"), 0);
}

#[test]
fn all_motions_cancel() {
    let mut cursor = Cursor::default();

    cursor.do_move(Direction::Down);
    cursor.do_move(Direction::Right);
    cursor.do_move(Direction::Up);
    cursor.do_move(Direction::Left);

    assert_eq!(cursor.byte_pos("12\n34"), 0);
}
