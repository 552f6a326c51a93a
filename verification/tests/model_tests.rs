use lambda_gateway::key_set::KeySet;
use lambda_gateway::message::{
    fields_are_sendable, find_header, find_text, is_visible, name_is_valid, status_is_valid,
    value_is_valid, Header, ResponseHead,
};
use lambda_gateway::error::GatewayError;
use lambda_gateway::streaming::{
    default_response_head, prelude_response_head, validate_prelude, MetadataPrelude,
};
use lambda_gateway::string_map::StringMap;
use lambda_gateway::config::parse_api_keys;
use lambda_gateway::text::{
    bytes_eq, bytes_start_with, bytes_to_text, split, str_eq, to_ascii_lowercase,
};

fn header(name: &str, value: &[u8]) -> Header {
    Header { name: name.to_string(), value: value.to_vec() }
}

#[test]
fn key_sets_store_each_key_once() {
    let mut keys = KeySet::new();
    assert!(keys.is_empty());
    assert_eq!(keys.len(), 0);
    keys.insert("a".to_string());
    keys.insert("b".to_string());
    keys.insert("a".to_string());
    assert!(!keys.is_empty());
    assert_eq!(keys.len(), 2);
    assert!(keys.contains("a"));
    assert!(keys.contains("b"));
    assert!(!keys.contains("A"));
    assert!(!keys.contains(""));
    let copy = keys.clone();
    assert_eq!(copy.len(), 2);
    assert!(copy.contains("b"));
    let from = KeySet::from_keys(vec!["x".to_string(), "y".to_string(), "x".to_string()]);
    assert_eq!(from.len(), 2);
    assert!(from.contains("x") && from.contains("y"));
}

#[test]
fn api_key_lists() {
    assert!(parse_api_keys("").is_empty());
    let one = parse_api_keys("key1");
    assert_eq!(one.len(), 1);
    assert!(one.contains("key1"));
    let two = parse_api_keys("key1,key2");
    assert_eq!(two.len(), 2);
    assert!(two.contains("key1") && two.contains("key2"));
    let spaced = parse_api_keys(" key1 , key2");
    assert!(spaced.contains(" key1 ") && spaced.contains(" key2"));
    assert!(!spaced.contains("key1"));
    let comma = parse_api_keys(",");
    assert_eq!(comma.len(), 1);
    assert!(comma.contains(""));
}

#[test]
fn string_maps_replace_values_and_keep_order() {
    let mut map = StringMap::new();
    assert_eq!(map.len(), 0);
    assert_eq!(map.get("a"), None);
    map.insert("a".to_string(), "1".to_string());
    map.insert("b".to_string(), "2".to_string());
    map.insert("a".to_string(), "3".to_string());
    assert_eq!(map.len(), 2);
    assert_eq!(map.get("a"), Some(&"3".to_string()));
    assert_eq!(map.get("b"), Some(&"2".to_string()));
    assert_eq!(map.get("c"), None);
    assert_eq!(
        map.pairs(),
        &vec![("a".to_string(), "3".to_string()), ("b".to_string(), "2".to_string())]
    );
    let copy = map.clone();
    assert_eq!(copy.pairs(), map.pairs());
    let built = StringMap::from_pairs(&vec![
        ("k".to_string(), "old".to_string()),
        ("j".to_string(), "x".to_string()),
        ("k".to_string(), "new".to_string()),
    ]);
    assert_eq!(built.len(), 2);
    assert_eq!(built.get("k"), Some(&"new".to_string()));
}

#[test]
fn text_helpers() {
    assert_eq!(to_ascii_lowercase("Content-TYPE"), "content-type");
    assert_eq!(to_ascii_lowercase("ÀZaz09-_"), "Àzaz09-_");
    assert_eq!(to_ascii_lowercase(""), "");
    assert_eq!(to_ascii_lowercase("@[`{"), "@[`{");
    assert_eq!(split("a,b,c", ','), vec!["a", "b", "c"]);
    assert_eq!(split("", ','), vec![""]);
    assert_eq!(split(",", ','), vec!["", ""]);
    assert_eq!(split("a,,b,", ','), vec!["a", "", "b", ""]);
    assert_eq!(split("no separator", ','), vec!["no separator"]);
    assert_eq!(split("é,ü", ','), vec!["é", "ü"]);
    assert!(str_eq("abc", "abc"));
    assert!(!str_eq("abc", "abd"));
    assert!(!str_eq("abc", "ab"));
    assert!(str_eq("", ""));
    assert!(bytes_eq(b"xy", b"xy"));
    assert!(!bytes_eq(b"xy", b"xz"));
    assert!(!bytes_eq(b"xy", b"xyz"));
    assert!(bytes_start_with(b"text/plain", b"text/"));
    assert!(bytes_start_with(b"text/", b"text/"));
    assert!(bytes_start_with(b"anything", b""));
    assert!(!bytes_start_with(b"text", b"text/"));
    assert!(!bytes_start_with(b"Text/plain", b"text/"));
    assert_eq!(bytes_to_text(b"k1 ~"), "k1 ~");
    assert_eq!(bytes_to_text(&[0xe9]), "\u{e9}");
}

#[test]
fn header_lookup_ignores_case_and_takes_the_first() {
    let headers = vec![
        header("Accept", b"a"),
        header("X-API-KEY", b"one"),
        header("x-api-key", b"two"),
        header("Bad", &[0x01]),
    ];
    assert_eq!(find_header(&headers, "x-api-key").unwrap(), b"one");
    assert_eq!(find_header(&headers, "accept").unwrap(), b"a");
    assert_eq!(find_header(&headers, "Accept"), None);
    assert_eq!(find_header(&headers, "missing"), None);
    assert_eq!(find_header(&headers, "bad").unwrap(), &[0x01]);
    assert_eq!(find_text(&headers, "bad"), None);
    assert_eq!(find_text(&headers, "x-api-key").unwrap(), b"one");
    assert!(is_visible(b"plain text\twith tab ~"));
    assert!(is_visible(b""));
    assert!(!is_visible(&[0x1f]));
    assert!(!is_visible(&[0x7f]));
    assert!(!is_visible(&[0x80]));
    assert!(!is_visible(b"line\nbreak"));
}

#[test]
fn head_without_prelude() {
    assert_eq!(
        default_response_head(),
        ResponseHead {
            status: 200,
            headers: vec![header("content-type", b"application/octet-stream")],
        }
    );
}

#[test]
fn head_drops_content_length_and_appends_cookies_in_order() {
    let prelude = MetadataPrelude {
        status_code: 418,
        headers: vec![
            header("content-type", b"text/plain"),
            header("content-length", b"5"),
            header("x-one", b"1"),
            header("Content-Length", b"6"),
            header("x-two", &[0xff]),
        ],
        cookies: vec!["b=2".to_string(), "a=1".to_string(), "b=2".to_string()],
    };
    let head = prelude_response_head(Some(prelude));
    assert_eq!(head.status, 418);
    assert_eq!(
        head.headers,
        vec![
            header("content-type", b"text/plain"),
            header("x-one", b"1"),
            header("x-two", &[0xff]),
            header("set-cookie", b"b=2"),
            header("set-cookie", b"a=1"),
            header("set-cookie", b"b=2"),
        ]
    );
    assert!(find_header(&head.headers, "content-length").is_none());
}

#[test]
fn unreadable_prelude_gives_status_200_without_headers() {
    let expected = ResponseHead { status: 200, headers: Vec::new() };
    assert_eq!(prelude_response_head(None), expected);
    let invalid = MetadataPrelude {
        status_code: 99,
        headers: vec![header("x", b"y")],
        cookies: vec!["a=b".to_string()],
    };
    assert_eq!(prelude_response_head(Some(invalid)), expected);
    assert_eq!(prelude_response_head(Some(MetadataPrelude::default())), expected);
    let default = MetadataPrelude::default();
    assert_eq!(default.status_code, 200);
    assert!(default.headers.is_empty());
    assert!(default.cookies.is_empty());
}

#[test]
fn header_names_and_values_are_judged_as_the_http_types_judge_them() {
    for b in 0..=255u8 {
        assert_eq!(
            name_is_valid(&String::from_utf8_lossy(&[b])) && b < 128,
            axum::http::HeaderName::from_bytes(&[b]).is_ok(),
            "name byte {}",
            b
        );
        assert_eq!(
            name_is_valid(&String::from_utf8_lossy(&[b'x', b])) && b < 128,
            axum::http::HeaderName::from_bytes(&[b'x', b]).is_ok(),
            "second name byte {}",
            b
        );
        assert_eq!(
            value_is_valid(&[b]),
            axum::http::HeaderValue::from_bytes(&[b]).is_ok(),
            "value byte {}",
            b
        );
        assert_eq!(
            is_visible(&[b]),
            axum::http::HeaderValue::from_bytes(&[b]).map(|v| v.to_str().is_ok()).unwrap_or(false),
            "visible byte {}",
            b
        );
    }
    for name in ["", "content-type", "Content-Type", "x y", "é", "a:b", "x-ü", "set-cookie"] {
        assert_eq!(
            name_is_valid(name),
            axum::http::HeaderName::from_bytes(name.as_bytes()).is_ok(),
            "name {:?}",
            name
        );
    }
    let long = "a".repeat(65535);
    assert!(name_is_valid(&long));
    assert!(axum::http::HeaderName::from_bytes(long.as_bytes()).is_ok());
    let too_long = "a".repeat(65536);
    assert!(!name_is_valid(&too_long));
    assert!(axum::http::HeaderName::from_bytes(too_long.as_bytes()).is_err());
    for status in 0..=1100u16 {
        assert_eq!(status_is_valid(status), axum::http::StatusCode::from_u16(status).is_ok());
    }
    assert!(!name_is_valid(""));
    assert!(name_is_valid("x-custom_header.v1~"));
    assert!(!name_is_valid("x custom"));
    assert!(value_is_valid(b"plain; q=1\t\"quoted\""));
    assert!(value_is_valid("héllo".as_bytes()));
    assert!(!value_is_valid(b"two\r\nlines"));
    assert!(fields_are_sendable(&vec![]));
    assert!(fields_are_sendable(&vec![header("a", b"1"), header("B", &[0xff])]));
    assert!(!fields_are_sendable(&vec![header("a", b"1"), header("b b", b"2")]));
    assert!(!fields_are_sendable(&vec![header("a", &[0x00])]));
}

#[test]
fn prelude_that_cannot_be_sent_gives_the_default_document() {
    let expected = ResponseHead { status: 200, headers: Vec::new() };
    let bad_name = MetadataPrelude {
        status_code: 201,
        headers: vec![header("bad name", b"v")],
        cookies: Vec::new(),
    };
    assert_eq!(prelude_response_head(Some(bad_name)), expected);
    let bad_value = MetadataPrelude {
        status_code: 201,
        headers: vec![header("x", b"line\nbreak")],
        cookies: Vec::new(),
    };
    assert_eq!(prelude_response_head(Some(bad_value)), expected);
    let bad_cookie = MetadataPrelude {
        status_code: 201,
        headers: vec![header("x", b"v")],
        cookies: vec!["a=b".to_string(), "c=\r\n".to_string()],
    };
    assert_eq!(prelude_response_head(Some(bad_cookie)), expected);
    let dropped_anyway = MetadataPrelude {
        status_code: 201,
        headers: vec![header("content-length", b"\n")],
        cookies: Vec::new(),
    };
    assert_eq!(prelude_response_head(Some(dropped_anyway)), expected);
}

#[test]
fn malformed_preludes_are_told_apart() {
    assert_eq!(validate_prelude(None).unwrap_err(), GatewayError::MalformedPrelude);
    let no_status = MetadataPrelude { status_code: 1000, headers: Vec::new(), cookies: Vec::new() };
    assert_eq!(validate_prelude(Some(no_status)).unwrap_err(), GatewayError::MalformedPrelude);
    let fine = MetadataPrelude {
        status_code: 301,
        headers: vec![header("location", b"/next")],
        cookies: vec!["a=b".to_string()],
    };
    let checked = validate_prelude(Some(fine)).unwrap();
    assert_eq!(checked.status_code, 301);
    assert_eq!(checked.headers, vec![header("location", b"/next")]);
    assert_eq!(checked.cookies, vec!["a=b".to_string()]);
}
