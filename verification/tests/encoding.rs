use comm::encoding::{decimal_string, percent_encode};

#[test]
fn percent_encoding_keeps_unreserved_bytes() {
    assert_eq!(percent_encode("AZaz09-._~"), "AZaz09-._~");
    assert_eq!(percent_encode(""), "");
}

#[test]
fn percent_encoding_writes_utf8_bytes_in_upper_case_hex() {
    assert_eq!(percent_encode("é"), "%C3%A9");
    assert_eq!(percent_encode(" /?#&=+%"), "%20%2F%3F%23%26%3D%2B%25");
    assert_eq!(percent_encode("😀"), "%F0%9F%98%80");
}

#[test]
fn decimal_digits() {
    let text = |n: u64| decimal_string(n).into_iter().collect::<String>();
    assert_eq!(text(0), "0");
    assert_eq!(text(7), "7");
    assert_eq!(text(10), "10");
    assert_eq!(text(65535), "65535");
    assert_eq!(text(u64::MAX), u64::MAX.to_string());
}
