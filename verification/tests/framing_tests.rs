use lambda_gateway::framing::{detect_metadata, process_buffer, MetadataBuffer};
use lambda_gateway::message::find_header;
use lambda_gateway::streaming::{prelude_response_head, MetadataPrelude};
use lambda_gateway::message::Header;

const PAYLOAD: &str =
    r#"{"statusCode": 200, "headers": {"Content-Type": "text/plain"}, "body": "Hello"}"#;

/// Reads a metadata document the way the service does, field by field.
fn parse_prelude(document: &[u8]) -> Option<MetadataPrelude> {
    let value: serde_json::Value = serde_json::from_slice(document).ok()?;
    let object = value.as_object()?;
    let status_code = u16::try_from(object.get("statusCode")?.as_u64()?).ok()?;
    let mut headers = Vec::new();
    if let Some(map) = object.get("headers").and_then(|h| h.as_object()) {
        for (name, value) in map.iter() {
            headers.push(Header {
                name: name.to_lowercase(),
                value: value.as_str()?.as_bytes().to_vec(),
            });
        }
    }
    let mut cookies = Vec::new();
    if let Some(list) = object.get("cookies").and_then(|c| c.as_array()) {
        for cookie in list.iter() {
            cookies.push(cookie.as_str()?.to_string());
        }
    }
    Some(MetadataPrelude { status_code, headers, cookies })
}

fn framed(document: &[u8], body: &[u8]) -> Vec<u8> {
    let mut bytes = document.to_vec();
    bytes.extend_from_slice(&[0u8; 8]);
    bytes.extend_from_slice(body);
    bytes
}

#[test]
fn test_detect_metadata() {
    let full_payload = PAYLOAD.as_bytes().to_vec();

    let has_metadata = detect_metadata(&full_payload);

    assert!(has_metadata);
}

#[test]
fn test_collect_metadata() {
    let remaining_data = b"Remaining data";
    let full_payload = framed(PAYLOAD.as_bytes(), remaining_data);

    let mut metadata_buffer = MetadataBuffer::new();
    let (document, remaining) = metadata_buffer.collect_metadata(&full_payload);

    assert!(document.is_some());
    let document = document.unwrap();
    assert_eq!(document, PAYLOAD.as_bytes());
    let head = prelude_response_head(parse_prelude(&document));
    assert_eq!(head.status, 200);
    assert_eq!(find_header(&head.headers, "content-type").unwrap(), b"text/plain");
    assert_eq!(remaining, remaining_data);
}

#[test]
fn test_process_buffer() {
    let remaining_data = b"Remaining data";
    let buffer = framed(PAYLOAD.as_bytes(), remaining_data);

    let (document, remaining) = process_buffer(&buffer);

    assert!(document.is_some());
    let document = document.unwrap();
    assert_eq!(document, PAYLOAD.as_bytes());
    let head = prelude_response_head(parse_prelude(&document));
    assert_eq!(head.status, 200);
    assert_eq!(find_header(&head.headers, "content-type").unwrap(), b"text/plain");
    assert_eq!(remaining, remaining_data);
}

#[test]
fn detection_needs_a_leading_brace() {
    assert!(detect_metadata(b"{"));
    assert!(detect_metadata(b"{\"statusCode\":200}"));
    assert!(!detect_metadata(b""));
    assert!(!detect_metadata(b" {"));
    assert!(!detect_metadata(b"raw-bytes-not-starting-with-brace"));
    assert!(!detect_metadata(&[0u8, b'{']));
}

#[test]
fn buffer_without_terminator_gives_nothing() {
    assert_eq!(process_buffer(b""), (None, Vec::new()));
    assert_eq!(process_buffer(b"{}"), (None, Vec::new()));
    assert_eq!(process_buffer(&[b'{', b'}', 0, 0, 0, 0, 0, 0, 0]), (None, Vec::new()));
    assert_eq!(
        process_buffer(&[b'{', 0, 0, 0, 0, 0, 0, 0, b'x', 0, 0, 0, 0, 0, 0, 0]),
        (None, Vec::new())
    );
}

#[test]
fn document_ends_before_the_first_nul_of_the_run() {
    let (document, body) = process_buffer(&framed(b"{}", b"BODY"));
    assert_eq!(document.unwrap(), b"{}");
    assert_eq!(body, b"BODY");
}

#[test]
fn remainder_may_be_empty() {
    let (document, body) = process_buffer(&framed(b"{\"a\":1}", b""));
    assert_eq!(document.unwrap(), b"{\"a\":1}");
    assert_eq!(body, b"");
}

#[test]
fn terminator_alone_is_an_empty_document() {
    let (document, body) = process_buffer(&[0u8; 8]);
    assert_eq!(document.unwrap(), b"");
    assert_eq!(body, b"");
}

#[test]
fn nul_bytes_after_the_terminator_are_body() {
    let (document, body) = process_buffer(&[b'{', b'}', 0, 0, 0, 0, 0, 0, 0, 0, 0, 0, b'x']);
    assert_eq!(document.unwrap(), b"{}");
    assert_eq!(body, [0u8, 0, b'x']);
}

#[test]
fn a_short_run_of_nuls_does_not_end_the_document() {
    let mut bytes = vec![b'{', 0, 0, 0, b'}'];
    bytes.extend_from_slice(&[0u8; 8]);
    bytes.extend_from_slice(b"rest");
    let (document, body) = process_buffer(&bytes);
    assert_eq!(document.unwrap(), [b'{', 0, 0, 0, b'}']);
    assert_eq!(body, b"rest");
}

#[test]
fn only_the_first_terminator_counts() {
    let mut bytes = framed(b"{}", b"mid");
    bytes.extend_from_slice(&[0u8; 8]);
    bytes.extend_from_slice(b"end");
    let (document, body) = process_buffer(&bytes);
    assert_eq!(document.unwrap(), b"{}");
    let mut expected = b"mid".to_vec();
    expected.extend_from_slice(&[0u8; 8]);
    expected.extend_from_slice(b"end");
    assert_eq!(body, expected);
}

#[test]
fn collecting_keeps_chunks_until_the_terminator() {
    let mut buffer = MetadataBuffer::new();
    assert_eq!(buffer.len(), 0);
    assert_eq!(buffer.collect_metadata(b"{\"statusCode\""), (None, Vec::new()));
    assert_eq!(buffer.len(), 13);
    assert_eq!(buffer.collect_metadata(b":201}"), (None, Vec::new()));
    assert_eq!(buffer.collect_metadata(&[0, 0, 0]), (None, Vec::new()));
    assert_eq!(buffer.len(), 21);
    let (document, body) = buffer.collect_metadata(&[0, 0, 0, 0, 0, b'B', b'O', b'D', b'Y']);
    assert_eq!(document.unwrap(), b"{\"statusCode\":201}");
    assert_eq!(body, b"BODY");
    assert_eq!(buffer.len(), 0);
}

#[test]
fn chunk_boundaries_do_not_matter() {
    let mut whole = framed(b"{\"statusCode\":201,\"cookies\":[\"a=b\"]}", b"BODY");
    whole.extend_from_slice(&[0u8; 9]);
    let expected = process_buffer(&whole);
    assert!(expected.0.is_some());
    for first_cut in 0..=whole.len() {
        for second_cut in first_cut..=whole.len() {
            let chunks = [
                &whole[..first_cut],
                &whole[first_cut..second_cut],
                &whole[second_cut..],
            ];
            let mut buffer = MetadataBuffer::new();
            let mut document = None;
            let mut body = Vec::new();
            for chunk in chunks {
                if document.is_some() {
                    body.extend_from_slice(chunk);
                } else {
                    let (found, rest) = buffer.collect_metadata(chunk);
                    document = found;
                    body.extend_from_slice(&rest);
                }
            }
            assert_eq!((document, body), expected);
        }
    }
}

#[test]
fn collecting_byte_by_byte_without_terminator_holds_everything() {
    let bytes = [b'{', 0, 0, 0, 0, 0, 0, 0, b'}', 0, 0, 0];
    let mut buffer = MetadataBuffer::new();
    for b in bytes {
        assert_eq!(buffer.collect_metadata(&[b]), (None, Vec::new()));
    }
    assert_eq!(buffer.len(), bytes.len());
    assert_eq!(process_buffer(&bytes), (None, Vec::new()));
}
