use computor_v2::terminal::{CursorController, Direction, RowContents, TerminalEvent};

#[test]
fn row_inserts_at_the_cursor() {
    let mut row = RowContents::new();
    assert_eq!(row.get_content(), "");
    assert_eq!(row.get_index(), 0);
    row.insert('a');
    row.insert('c');
    assert!(row.move_index(true));
    row.insert('b');
    assert_eq!(row.get_content(), "abc");
    assert_eq!(row.get_index(), 2);
    row.insert_str("xy");
    assert_eq!(row.get_content(), "abxyc");
    assert_eq!(row.get_index(), 4);
    assert_eq!(row.rest(3), "yc");
    assert_eq!(row.rest(5), "");
    assert_eq!(row.rest(9), "");
}

#[test]
fn row_removes_before_the_cursor() {
    let mut row = RowContents::new();
    row.remove();
    assert_eq!(row, RowContents::new());
    row.insert_str("abc");
    assert!(row.move_index(true));
    row.remove();
    assert_eq!(row.get_content(), "ac");
    assert_eq!(row.get_index(), 1);
    row.remove();
    row.remove();
    assert_eq!(row.get_content(), "c");
    assert_eq!(row.get_index(), 0);
}

#[test]
fn row_cursor_stays_in_the_row() {
    let mut row = RowContents::new();
    assert!(!row.move_index(true));
    assert!(!row.move_index(false));
    row.insert_str("ab");
    assert!(!row.move_index(false));
    assert!(row.move_index(true));
    assert!(row.move_index(true));
    assert!(!row.move_index(true));
    assert_eq!(row.get_index(), 0);
    assert!(row.move_index(false));
    assert_eq!(row.get_index(), 1);
}

#[test]
fn row_is_taken_out() {
    let mut row = RowContents::new();
    row.insert_str("2 + 2 = ?");
    let taken = row.move_content();
    assert_eq!(*taken, "2 + 2 = ?");
    assert_eq!(row, RowContents::new());
    assert_eq!(TerminalEvent::Up(taken), TerminalEvent::Up(Box::new("2 + 2 = ?".to_string())));
}

fn moved(x: usize, y: usize, direction: Direction, window: (usize, usize)) -> (usize, usize, i32) {
    let mut cursor = CursorController::at(x, y);
    let scroll = cursor.move_cursor(direction, &window);
    (cursor.cursor_x, cursor.cursor_y, scroll)
}

#[test]
fn cursor_moves_and_wraps() {
    let window = (10, 4);
    assert_eq!(moved(3, 1, Direction::Left, window), (2, 1, 0));
    assert_eq!(moved(0, 1, Direction::Left, window), (9, 0, 0));
    assert_eq!(moved(0, 0, Direction::Left, window), (9, 0, -1));
    assert_eq!(moved(3, 1, Direction::Right, window), (4, 1, 0));
    assert_eq!(moved(9, 1, Direction::Right, window), (0, 2, 0));
    assert_eq!(moved(9, 3, Direction::Right, window), (0, 3, 1));
}

#[test]
fn cursor_jumps_over_rows() {
    let window = (10, 4);
    let mut cursor = CursorController::at(8, 1);
    cursor.update_from_value(5, &window);
    assert_eq!((cursor.cursor_x, cursor.cursor_y), (3, 2));
    let mut cursor = CursorController::at(8, 1);
    cursor.update_from_value(2, &window);
    assert_eq!((cursor.cursor_x, cursor.cursor_y), (0, 1));
    let mut cursor = CursorController::at(8, 2);
    cursor.update_from_value(35, &window);
    assert_eq!((cursor.cursor_x, cursor.cursor_y), (3, 3));

    let mut cursor = CursorController::at(8, 2);
    cursor.update_from_minus_value(5, &window);
    assert_eq!((cursor.cursor_x, cursor.cursor_y), (3, 2));
    let mut cursor = CursorController::at(3, 2);
    cursor.update_from_minus_value(5, &window);
    assert_eq!((cursor.cursor_x, cursor.cursor_y), (8, 1));
    let mut cursor = CursorController::at(3, 2);
    cursor.update_from_minus_value(13, &window);
    assert_eq!((cursor.cursor_x, cursor.cursor_y), (0, 1));
    let mut cursor = CursorController::at(3, 1);
    cursor.update_from_minus_value(27, &window);
    assert_eq!((cursor.cursor_x, cursor.cursor_y), (6, 0));
}

#[test]
fn cursor_scrolls_to_fit() {
    let window = (10, 4);
    let mut cursor = CursorController::at(8, 3);
    assert_eq!(cursor.scroll_to_fit(0, &window), 0);
    assert_eq!((cursor.cursor_x, cursor.cursor_y), (8, 3));
    assert_eq!(cursor.scroll_to_fit(1, &window), 1);
    assert_eq!((cursor.cursor_x, cursor.cursor_y), (8, 2));
    let mut cursor = CursorController::at(8, 1);
    assert_eq!(cursor.scroll_to_fit(41, &window), 3);
    assert_eq!((cursor.cursor_x, cursor.cursor_y), (8, 0));
    assert_eq!(CursorController::at(70000, 3).get_position(), (4464, 3));
}
