use my_redis::text::first_line;

#[test]
fn first_line_of_multiline_text() {
    assert_eq!(first_line("Hello\nworld\n!"), "Hello");
}

#[test]
fn first_line_without_newline_is_whole_text() {
    assert_eq!(first_line("Hello"), "Hello");
}

#[test]
fn first_line_strips_carriage_return_before_newline() {
    assert_eq!(first_line("one\r\ntwo"), "one");
}

#[test]
fn first_line_of_leading_newline_is_empty() {
    assert_eq!(first_line("\nrest"), "");
}

#[test]
fn first_line_keeps_lone_trailing_carriage_return() {
    assert_eq!(first_line("one\r"), "one\r");
}
