use minic::attr::Attr;
use minic::cursor::Cursor;
use minic::pos::Pos;
use minic::range::Range;

#[test]
fn attr_test_default() {
    let attr = Attr::default();
    assert_eq!(attr.range, Range::default());
}

#[test]
fn test_cursor() {
    let mut cursor = Cursor::new();
    assert_eq!(cursor.cur_pos(), Pos::new(1, 0));
    cursor.incr_col();
    assert_eq!(cursor.cur_pos(), Pos::new(1, 1));
    cursor.incr_row();
    assert_eq!(cursor.cur_pos(), Pos::new(2, 0));
    cursor.incr_col();
    assert_eq!(cursor.cur_pos(), Pos::new(2, 1));
}

#[test]
fn pos_test_default() {
    let p = Pos::default();
    assert_eq!(p.row, 0);
    assert_eq!(p.col, 0);
}

#[test]
fn test_eq() {
    let first = Pos { row: 1, col: 1 };
    let second = Pos { row: 1, col: 1 };
    assert_eq!(first, second);
}

#[test]
fn range_test_default() {
    let r = Range::default();
    assert_eq!(r.start, Pos::default());
    assert_eq!(r.end, Pos::default());
}

#[test]
fn cursor_index_counts_consumed_characters() {
    let mut cursor = Cursor::new();
    assert_eq!(cursor.index, -1);
    cursor.incr_col();
    cursor.incr_row();
    assert_eq!(cursor.index, 1);
}

#[test]
fn cursor_column_wraps_as_a_byte() {
    let mut cursor = Cursor::new();
    for _ in 0..256 {
        cursor.incr_col();
    }
    assert_eq!(cursor.cur_pos(), Pos::new(1, 0));
    assert_eq!(cursor.index, 255);
}

#[test]
fn attr_point_and_range() {
    let p = Attr::point(3, 4);
    assert_eq!(p.range.start, Pos::new(3, 4));
    assert_eq!(p.range.end, Pos::new(3, 4));
    let r = Attr::range(1, 2, 5, 6);
    assert_eq!(r.range.start, Pos::new(1, 2));
    assert_eq!(r.range.end, Pos::new(5, 6));
    let mut a = Attr::new();
    a.set_start_pos(Pos::new(7, 8));
    a.set_end_pos(Pos::new(9, 10));
    assert_eq!(a, Attr::range(7, 8, 9, 10));
}

#[test]
fn range_setters() {
    let mut r = Range::new();
    r.set_start(2, 3);
    assert_eq!(r.start, Pos::new(2, 3));
    assert_eq!(r.end, Pos::new(0, 0));
    r.set_end(4, 5);
    assert_eq!(r.end, Pos::new(4, 5));
}
