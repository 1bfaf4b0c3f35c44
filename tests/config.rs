use tunnel_core::config::{buffer_size, parse_usize, DEFAULT_BUFSIZE};

#[test]
fn buffer_size_default_and_configured() {
    assert_eq!(DEFAULT_BUFSIZE, 2048);
    assert_eq!(buffer_size(None), 2048);
    assert_eq!(buffer_size(Some("4096")), 4096);
    assert_eq!(buffer_size(Some("+16")), 16);
    assert_eq!(buffer_size(Some("0")), 0);
    assert_eq!(buffer_size(Some("abc")), 2048);
    assert_eq!(buffer_size(Some("")), 2048);
    assert_eq!(buffer_size(Some("-1")), 2048);
    assert_eq!(buffer_size(Some(" 12")), 2048);
}

#[test]
fn usize_reading_matches_std() {
    for s in ["", "+", "++1", "0", "007", "+42", "-0", "1_000", "18446744073709551615",
        "18446744073709551616", "99999999999999999999999", "12a", "٣"] {
        assert_eq!(parse_usize(s), s.parse::<usize>().ok(), "{s}");
    }
}
