use jenkins_api::encoding::encode;
use jenkins_api::text::chars_of;

#[test]
fn unreserved_characters_stand_for_themselves() {
    assert_eq!(encode("AZaz09-._~"), "AZaz09-._~");
    assert_eq!(
        encode("ABCDEFGHIJKLMNOPQRSTUVWXYZabcdefghijklmnopqrstuvwxyz0123456789"),
        "ABCDEFGHIJKLMNOPQRSTUVWXYZabcdefghijklmnopqrstuvwxyz0123456789"
    );
}

#[test]
fn empty_text_encodes_to_empty_text() {
    assert_eq!(encode(""), "");
}

#[test]
fn space_is_escaped() {
    assert_eq!(encode("my job"), "my%20job");
}

#[test]
fn path_and_query_marks_are_escaped() {
    assert_eq!(encode("a/b"), "a%2Fb");
    assert_eq!(encode("a?b=c&d#e"), "a%3Fb%3Dc%26d%23e");
    assert_eq!(encode("+"), "%2B");
}

#[test]
fn percent_sign_is_escaped() {
    assert_eq!(encode("100%"), "100%25");
    assert_eq!(encode("%20"), "%2520");
}

#[test]
fn neighbours_of_the_unreserved_ranges_are_escaped() {
    assert_eq!(encode("/"), "%2F");
    assert_eq!(encode(":"), "%3A");
    assert_eq!(encode("@"), "%40");
    assert_eq!(encode("["), "%5B");
    assert_eq!(encode("`"), "%60");
    assert_eq!(encode("{"), "%7B");
    assert_eq!(encode(","), "%2C");
    assert_eq!(encode("^"), "%5E");
    assert_eq!(encode("}"), "%7D");
    assert_eq!(encode("\u{7f}"), "%7F");
}

#[test]
fn control_bytes_use_two_digits() {
    assert_eq!(encode("\0"), "%00");
    assert_eq!(encode("\n"), "%0A");
    assert_eq!(encode("\u{1f}"), "%1F");
}

#[test]
fn hexadecimal_digits_are_upper_case() {
    assert_eq!(encode("\u{ab}"), "%C2%AB");
    assert_eq!(encode("\u{ff}"), "%C3%BF");
}

#[test]
fn two_byte_characters_are_escaped_byte_by_byte() {
    assert_eq!(encode("é"), "%C3%A9");
    assert_eq!(encode("caf\u{e9}"), "caf%C3%A9");
}

#[test]
fn three_byte_characters_are_escaped_byte_by_byte() {
    assert_eq!(encode("日本"), "%E6%97%A5%E6%9C%AC");
    assert_eq!(encode("\u{20ac}"), "%E2%82%AC");
}

#[test]
fn four_byte_characters_are_escaped_byte_by_byte() {
    assert_eq!(encode("\u{1f600}"), "%F0%9F%98%80");
}

#[test]
fn encoded_text_has_only_unreserved_characters_and_percent() {
    let encoded = encode("view of / all ? the & jobs # \u{20ac} \u{1f600}\t%");
    assert!(encoded
        .chars()
        .all(|c| c == '%' || c.is_ascii_alphanumeric() || "-._~".contains(c)));
    assert!(!encoded.contains('/'));
}

#[test]
fn encoded_text_is_at_least_as_long_as_the_text() {
    for text in ["", "a", "a b", "日本", "%%%"] {
        assert!(encode(text).chars().count() >= text.chars().count());
    }
}

#[test]
fn chars_of_lists_the_characters_in_order() {
    assert_eq!(chars_of(""), Vec::<char>::new());
    assert_eq!(chars_of("a/é日"), vec!['a', '/', 'é', '日']);
}
