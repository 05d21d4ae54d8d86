use fp::listing::crop_description;

#[test]
fn crop_keeps_short_first_line() {
    assert_eq!(crop_description("short\nsecond line"), "short");
}

#[test]
fn crop_long_line_gets_ellipsis() {
    assert_eq!(
        crop_description("abcdefghijklmnopqrstuvwxyz"),
        "abcdefghijklmnopqrstu..."
    );
}

#[test]
fn crop_exactly_max_len_is_kept() {
    assert_eq!(
        crop_description("abcdefghijklmnopqrstuvwx"),
        "abcdefghijklmnopqrstuvwx"
    );
}

#[test]
fn crop_empty_and_crlf() {
    assert_eq!(crop_description(""), "");
    assert_eq!(crop_description("\nrest"), "");
    assert_eq!(crop_description("line\r\nrest"), "line");
}
