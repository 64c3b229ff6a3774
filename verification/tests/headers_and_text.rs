use ajar_gateway::error::ProxyHttpError;
use ajar_gateway::headers::{declared_content_length, hop_by_hop_names, strip_hop_by_hop_headers};
use ajar_gateway::text::{append_decimal, parse_u64};
use axum::http::header::{HeaderName, CONTENT_LENGTH};
use axum::http::{HeaderMap, HeaderValue};

fn headers(fields: &[(&'static str, &'static str)]) -> HeaderMap {
    let mut headers = HeaderMap::new();
    for (name, value) in fields {
        headers.append(HeaderName::from_static(name), HeaderValue::from_static(value));
    }
    headers
}

fn stripped(fields: &[(&'static str, &'static str)]) -> HeaderMap {
    let mut headers = headers(fields);
    strip_hop_by_hop_headers(&mut headers);
    headers
}

#[test]
fn numbers_are_read_in_decimal() {
    assert_eq!(parse_u64("0"), Some(0));
    assert_eq!(parse_u64("42"), Some(42));
    assert_eq!(parse_u64("+42"), Some(42));
    assert_eq!(parse_u64("000000000000000000000000000007"), Some(7));
    assert_eq!(parse_u64("18446744073709551615"), Some(u64::MAX));
}

#[test]
fn other_texts_are_no_number() {
    for text in [
        "",
        "+",
        "-1",
        "++1",
        " 1",
        "1 ",
        "1_000",
        "0x10",
        "1.0",
        "\u{0661}",
        "18446744073709551616",
        "99999999999999999999999",
        "18446744073709551616x",
    ] {
        assert_eq!(parse_u64(text), None, "{text}");
    }
}

#[test]
fn numbers_read_as_std_reads_them() {
    for text in ["", "+", "7", "+7", "-7", "007", "7a", "18446744073709551615", "18446744073709551616", "é"] {
        assert_eq!(parse_u64(text), text.parse::<u64>().ok(), "{text}");
    }
}

#[test]
fn decimal_numbers_read_back() {
    for number in [0, 1, 9, 10, 11, 99, 100, 1234567890, u64::MAX - 1, u64::MAX] {
        let mut text = String::new();
        append_decimal(&mut text, number);
        assert_eq!(text, number.to_string());
        assert_eq!(parse_u64(&text), Some(number));
    }
}

#[test]
fn decimal_is_appended() {
    let mut text = "n = ".to_owned();
    append_decimal(&mut text, 1024);
    assert_eq!(text, "n = 1024");
}

#[test]
fn message_without_length_declares_none() {
    assert_eq!(declared_content_length(&headers(&[("host", "example.org")])), Ok(None));
}

#[test]
fn first_length_counts() {
    let fields = headers(&[("content-length", "5"), ("content-length", "six")]);
    assert_eq!(declared_content_length(&fields), Ok(Some(5)));
}

#[test]
fn length_that_is_no_number_is_an_error() {
    for value in ["", "five", "-5", "5 ", "18446744073709551616"] {
        let mut fields = HeaderMap::new();
        fields.insert(CONTENT_LENGTH, HeaderValue::from_str(value).unwrap());
        assert_eq!(
            declared_content_length(&fields),
            Err(ProxyHttpError::InvalidContentLength),
            "{value}"
        );
    }
}

#[test]
fn length_that_is_no_text_is_an_error() {
    let mut fields = HeaderMap::new();
    fields.insert(CONTENT_LENGTH, HeaderValue::from_bytes(b"5\xfa").unwrap());
    assert_eq!(
        declared_content_length(&fields),
        Err(ProxyHttpError::InvalidContentLength)
    );
}

#[test]
fn names_are_the_fixed_ones_then_the_nominated_ones() {
    let fields = headers(&[
        ("connection", "X-First, \t close\t,,not a name, x-second"),
        ("connection", "X-Third"),
    ]);
    assert_eq!(
        hop_by_hop_names(&fields),
        [
            "connection",
            "keep-alive",
            "te",
            "trailer",
            "transfer-encoding",
            "upgrade",
            "x-first",
            "close",
            "x-second",
            "x-third"
        ]
    );
}

#[test]
fn connection_value_that_is_no_text_nominates_nothing() {
    let mut fields = HeaderMap::new();
    fields.append("connection", HeaderValue::from_bytes(b"x-a,\xff").unwrap());
    fields.append("connection", HeaderValue::from_static("x-b"));
    assert_eq!(hop_by_hop_names(&fields)[6..], ["x-b"]);
}

#[test]
fn long_names_are_nominated_up_to_the_limit() {
    for (length, count) in [(64, 7), (65, 7), (65535, 7), (65536, 6)] {
        let mut fields = HeaderMap::new();
        fields.insert("connection", HeaderValue::from_str(&"A".repeat(length)).unwrap());
        let names = hop_by_hop_names(&fields);
        assert_eq!(names.len(), count);
        if count == 7 {
            assert_eq!(names[6].as_str(), "a".repeat(length));
        }
    }
}

#[test]
fn every_visible_character_is_sorted_as_the_crate_sorts_it() {
    for byte in 32u8..127 {
        if byte == b',' {
            continue;
        }
        let token = format!("x{}y", byte as char);
        let mut fields = HeaderMap::new();
        fields.insert("connection", HeaderValue::from_str(&token).unwrap());
        let expected: Vec<HeaderName> = token.parse::<HeaderName>().into_iter().collect();
        assert_eq!(hop_by_hop_names(&fields)[6..], expected[..], "{token}");
    }
}

#[test]
fn fixed_fields_and_proxy_fields_are_stripped() {
    let left = stripped(&[
        ("connection", "close"),
        ("keep-alive", "timeout=5"),
        ("te", "trailers"),
        ("trailer", "expires"),
        ("transfer-encoding", "chunked"),
        ("upgrade", "h2c"),
        ("proxy-authorization", "basic"),
        ("proxy-x", "1"),
        ("x-proxy-y", "kept"),
        ("proxy", "kept"),
    ]);
    assert_eq!(left, headers(&[("x-proxy-y", "kept"), ("proxy", "kept")]));
}

#[test]
fn field_with_a_quote_in_its_name_is_stripped() {
    let left = stripped(&[("proxy-\"quoted\"", "1"), ("x-\"quoted\"", "kept")]);
    assert_eq!(left, headers(&[("x-\"quoted\"", "kept")]));
}

const LONG_PROXY_NAME: &str = "proxy-abcdefghijabcdefghijabcdefghijabcdefghijabcdefghijabcdefghij y";
const LONG_KEPT_NAME: &str = "x-abcdefghijabcdefghijabcdefghijabcdefghijabcdefghijabcdefghijabcdefghij y";

#[test]
fn long_proxy_name_with_a_space_is_stripped() {
    assert!(LONG_PROXY_NAME.len() > 64 && LONG_KEPT_NAME.len() > 64);
    let mut fields = HeaderMap::new();
    fields.insert(LONG_PROXY_NAME, HeaderValue::from_static("1"));
    fields.append(LONG_PROXY_NAME, HeaderValue::from_static("2"));
    fields.insert(LONG_KEPT_NAME, HeaderValue::from_static("kept"));
    fields.insert("proxy-short", HeaderValue::from_static("3"));
    let name = fields.keys().next().unwrap();
    assert_eq!(name.as_str(), LONG_PROXY_NAME.replace(' ', "\0"));
    assert!(HeaderName::from_lowercase(name.as_str().as_bytes()).is_err());

    strip_hop_by_hop_headers(&mut fields);

    assert_eq!(fields.len(), 1);
    assert_eq!(fields.get(LONG_KEPT_NAME), Some(&HeaderValue::from_static("kept")));
}

#[test]
fn long_proxy_name_entered_as_a_string_is_stripped() {
    let mut fields = HeaderMap::new();
    let name = LONG_PROXY_NAME.to_uppercase();
    fields.try_entry(name).unwrap().or_insert(HeaderValue::from_static("1"));
    assert_eq!(fields.len(), 1);

    strip_hop_by_hop_headers(&mut fields);

    assert!(fields.is_empty());
}

#[test]
fn nominated_fields_are_stripped_with_all_their_values() {
    let left = stripped(&[
        ("connection", "X-Remove , x-gone"),
        ("x-remove", "one"),
        ("x-remove", "two"),
        ("x-gone", "three"),
        ("x-kept", "four"),
        ("x-kept", "five"),
    ]);
    assert_eq!(left, headers(&[("x-kept", "four"), ("x-kept", "five")]));
}

#[test]
fn stripping_twice_changes_nothing_more() {
    let once = stripped(&[("connection", "x-a"), ("x-a", "1"), ("x-b", "2"), ("proxy-c", "3")]);
    let mut twice = once.clone();
    strip_hop_by_hop_headers(&mut twice);
    assert_eq!(twice, once);
    assert_eq!(once, headers(&[("x-b", "2")]));
}
