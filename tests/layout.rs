use rinfo::layout::{min_max_line_len, with_both};

#[test]
fn line_lengths() {
    assert_eq!(min_max_line_len("ab\nc\r\n"), (1, 2));
    assert_eq!(min_max_line_len("hello\n\nxy"), (0, 5));
    assert_eq!(min_max_line_len(""), (usize::MAX, 0));
}

#[test]
fn banner_beside_report() {
    assert_eq!(with_both("ab\nc", "x\ny\nz"), "ab  x\nc   y\n    z\n");
    assert_eq!(with_both("abc", ""), "abc  \n");
}
