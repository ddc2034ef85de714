use echo_rsvp::picker::{picker_title, Move, Picker};

fn laid_out(words: &[&str], cursor: usize, cols: u16, rows: u16) -> Picker {
    let mut p = Picker::new(cursor);
    p.layout(words, cols, rows);
    p
}

#[test]
fn moves_stay_in_range() {
    let mut p = Picker::new(3);
    p.move_cursor(Move::Prev, 10);
    assert_eq!(p.cursor, 2);
    p.move_cursor(Move::JumpBack(10), 10);
    assert_eq!(p.cursor, 0);
    p.move_cursor(Move::Prev, 10);
    assert_eq!(p.cursor, 0);
    p.move_cursor(Move::JumpForward(-4), 10);
    assert_eq!(p.cursor, 4);
    p.move_cursor(Move::JumpForward(50), 10);
    assert_eq!(p.cursor, 9);
    p.move_cursor(Move::Next, 10);
    assert_eq!(p.cursor, 9);
    p.move_cursor(Move::Start, 10);
    assert_eq!(p.cursor, 0);
    p.move_cursor(Move::End, 10);
    assert_eq!(p.cursor, 9);
    p.move_cursor(Move::Down, 10);
    assert_eq!(p.cursor, 9);
    p.move_cursor(Move::End, 0);
    assert_eq!(p.cursor, 9);
}

#[test]
fn layout_wraps_words() {
    // 10 usable columns
    let words = ["aaa", "bbb", "cc", "dddd", "e", "ffffffffffffff"];
    let p = laid_out(&words, 0, 14, 10);
    assert_eq!(p.placed, vec![(0, 0, 3), (0, 4, 3), (0, 8, 2), (1, 0, 4), (1, 5, 1), (2, 0, 10)]);
    assert_eq!(p.row_starts, vec![0, 3, 5]);
    assert_eq!((p.top_row, p.viewport_rows, p.scroll), (2, 6, 0));
    assert_eq!(p.screen_position(4), Some((7, 3)));
}

#[test]
fn layout_scrolls_to_cursor() {
    let words = ["aaaa"; 30];
    // one word per row, two rows visible
    let mut p = laid_out(&words, 20, 8, 6);
    assert_eq!(p.viewport_rows, 2);
    assert_eq!(p.scroll, 19);
    assert_eq!(p.screen_position(20), Some((2, 3)));
    assert_eq!(p.screen_position(18), None);
    p.move_cursor(Move::Start, 30);
    p.layout(&words, 8, 6);
    assert_eq!(p.scroll, 0);
}

#[test]
fn up_and_down_pick_nearest_column() {
    let words = ["aaa", "bbb", "cc", "dddd", "e", "ffffffffffffff"];
    let mut p = laid_out(&words, 1, 14, 10);
    p.move_cursor(Move::Down, 6);
    assert_eq!(p.cursor, 4);
    p.move_cursor(Move::Down, 6);
    assert_eq!(p.cursor, 5);
    p.move_cursor(Move::Up, 6);
    assert_eq!(p.cursor, 3);
    p.move_cursor(Move::Up, 6);
    assert_eq!(p.cursor, 0);
    p.move_cursor(Move::Up, 6);
    assert_eq!(p.cursor, 0);
}

#[test]
fn title_shows_position() {
    assert_eq!(
        picker_title(1, 8, 60),
        " pick a word — 2/8 (25%) — ↵ jump · Esc cancel              "
    );
    assert_eq!(picker_title(0, 0, 16), " pick a word — 1");
}

#[test]
fn many_words_lay_out() {
    let words = vec!["ab"; 70_000];
    let mut p = Picker::new(69_999);
    p.layout(&words, 80, 24);
    assert_eq!(p.placed.len(), 70_000);
    // 25 words of "ab " per 76-column row
    assert_eq!(p.placed[69_999].0, 69_999 / 25);
    assert_eq!(p.scroll, 69_999 / 25 - 19);
    p.move_cursor(Move::JumpForward(i32::MAX), 70_000);
    assert_eq!(p.cursor, 69_999);
    p.move_cursor(Move::Up, 70_000);
    assert_eq!(p.cursor, 69_999 - 25);
}
