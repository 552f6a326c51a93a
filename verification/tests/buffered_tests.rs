use lambda_gateway::buffered::{handle_buffered_response, LambdaResponse};
use lambda_gateway::error::GatewayError;
use lambda_gateway::handler::respond_buffered;
use lambda_gateway::message::{find_header, status_is_valid, Header, HttpResponse};
use lambda_gateway::string_map::StringMap;

/// Reads a reply document the way the service does, field by field.
fn parse_reply(json: &str) -> Option<LambdaResponse> {
    let value: serde_json::Value = serde_json::from_str(json).ok()?;
    let object = value.as_object()?;
    let status_code = u16::try_from(object.get("statusCode")?.as_u64()?).ok()?;
    let status_description = match object.get("statusDescription") {
        Some(serde_json::Value::Null) | None => None,
        Some(text) => Some(text.as_str()?.to_string()),
    };
    let is_base64_encoded = match object.get("isBase64Encoded") {
        Some(serde_json::Value::Null) | None => None,
        Some(flag) => Some(flag.as_bool()?),
    };
    let headers = match object.get("headers") {
        Some(serde_json::Value::Null) | None => None,
        Some(map) => {
            let mut headers = StringMap::new();
            for (name, value) in map.as_object()?.iter() {
                headers.insert(name.clone(), value.as_str()?.to_string());
            }
            Some(headers)
        }
    };
    let body = object.get("body")?.as_str()?.to_string();
    Some(LambdaResponse { status_code, status_description, is_base64_encoded, headers, body })
}

fn reply(status_code: u16, is_base64_encoded: Option<bool>, body: &str) -> LambdaResponse {
    LambdaResponse {
        status_code,
        status_description: None,
        is_base64_encoded,
        headers: None,
        body: body.to_string(),
    }
}

#[test]
fn test_handle_buffered_response() {
    let mut headers = StringMap::new();
    headers.insert("Content-Type".to_string(), "text/plain".to_string());
    let lambda_response = LambdaResponse {
        status_code: 200,
        status_description: Some("OK".to_string()),
        is_base64_encoded: Some(false),
        headers: Some(headers),
        body: "Hello, World!".to_string(),
    };

    let response = handle_buffered_response(Some(lambda_response)).unwrap();

    assert_eq!(response.status, 200);
    assert_eq!(find_header(&response.headers, "content-type").unwrap(), b"text/plain");
    assert_eq!(response.body, b"Hello, World!");
}

#[test]
fn buffered_happy_path() {
    let reply = parse_reply(
        r#"{"statusCode":200,"headers":{"Content-Type":"text/plain"},"body":"Hello, World!"}"#,
    );
    let response = handle_buffered_response(reply).unwrap();
    assert_eq!(
        response,
        HttpResponse {
            status: 200,
            headers: vec![Header { name: "Content-Type".to_string(), value: b"text/plain".to_vec() }],
            body: b"Hello, World!".to_vec(),
        }
    );
}

#[test]
fn buffered_base64() {
    let reply = parse_reply(r#"{"statusCode":200,"isBase64Encoded":true,"body":"SGk="}"#);
    let response = handle_buffered_response(reply).unwrap();
    assert_eq!(response.status, 200);
    assert!(response.headers.is_empty());
    assert_eq!(response.body, b"Hi");
    assert_eq!(response.body.len(), 2);
}

#[test]
fn missing_reply_is_a_bad_upstream_response() {
    assert_eq!(handle_buffered_response(None), Err(GatewayError::BadUpstreamResponse));
    assert_eq!(
        handle_buffered_response(parse_reply("not json")),
        Err(GatewayError::BadUpstreamResponse)
    );
    assert_eq!(
        handle_buffered_response(parse_reply(r#"{"statusCode":200}"#)),
        Err(GatewayError::BadUpstreamResponse)
    );
}

#[test]
fn status_must_be_a_valid_http_status() {
    for status in [0u16, 1, 99, 1000, 65535] {
        assert!(!status_is_valid(status));
        assert_eq!(
            handle_buffered_response(Some(reply(status, None, "x"))),
            Err(GatewayError::BadUpstreamResponse)
        );
    }
    for status in [100u16, 200, 404, 599, 999] {
        assert!(status_is_valid(status));
        assert_eq!(handle_buffered_response(Some(reply(status, None, "x"))).unwrap().status, status);
    }
}

#[test]
fn body_that_is_not_base64_is_a_bad_upstream_response() {
    assert_eq!(
        handle_buffered_response(Some(reply(200, Some(true), "***"))),
        Err(GatewayError::BadUpstreamResponse)
    );
    assert_eq!(
        handle_buffered_response(Some(reply(200, Some(true), "SGk"))),
        Err(GatewayError::BadUpstreamResponse)
    );
}

#[test]
fn body_is_taken_as_text_unless_the_reply_says_base64() {
    assert_eq!(handle_buffered_response(Some(reply(200, None, "SGk="))).unwrap().body, b"SGk=");
    assert_eq!(
        handle_buffered_response(Some(reply(200, Some(false), "SGk="))).unwrap().body,
        b"SGk="
    );
    assert_eq!(
        handle_buffered_response(Some(reply(200, Some(true), "SGk="))).unwrap().body,
        b"Hi"
    );
    assert_eq!(
        handle_buffered_response(Some(reply(201, None, "héllo"))).unwrap().body,
        "héllo".as_bytes()
    );
    assert_eq!(handle_buffered_response(Some(reply(204, None, ""))).unwrap().body, b"");
}

#[test]
fn every_header_is_copied() {
    let mut headers = StringMap::new();
    headers.insert("Content-Type".to_string(), "application/json".to_string());
    headers.insert("X-Trace".to_string(), "abc".to_string());
    headers.insert("content-length".to_string(), "2".to_string());
    headers.insert("X-Trace".to_string(), "def".to_string());
    let mut lambda_response = reply(200, None, "{}");
    lambda_response.headers = Some(headers);
    let response = handle_buffered_response(Some(lambda_response)).unwrap();
    assert_eq!(
        response.headers,
        vec![
            Header { name: "Content-Type".to_string(), value: b"application/json".to_vec() },
            Header { name: "X-Trace".to_string(), value: b"def".to_vec() },
            Header { name: "content-length".to_string(), value: b"2".to_vec() },
        ]
    );
}

#[test]
fn failures_are_answered_with_502() {
    let bad = HttpResponse { status: 502, headers: Vec::new(), body: Vec::new() };
    assert_eq!(respond_buffered(None), bad);
    assert_eq!(respond_buffered(Some(reply(42, None, "x"))), bad);
    assert_eq!(respond_buffered(Some(reply(200, Some(true), "%"))), bad);
    assert_eq!(respond_buffered(Some(reply(200, None, "ok"))).body, b"ok");
    assert_eq!(respond_buffered(Some(reply(404, None, "ok"))).status, 404);
}

#[test]
fn header_that_cannot_be_sent_is_a_bad_upstream_response() {
    for (name, value) in [("bad name", "v"), ("", "v"), ("x", "line\nbreak"), ("x", "\u{7f}")] {
        let mut headers = StringMap::new();
        headers.insert("ok".to_string(), "fine".to_string());
        headers.insert(name.to_string(), value.to_string());
        let mut lambda_response = reply(200, None, "{}");
        lambda_response.headers = Some(headers);
        assert_eq!(
            handle_buffered_response(Some(lambda_response)),
            Err(GatewayError::BadUpstreamResponse)
        );
    }
    let mut headers = StringMap::new();
    headers.insert("X-Umlaut".to_string(), "grüße\t!".to_string());
    let mut lambda_response = reply(200, None, "{}");
    lambda_response.headers = Some(headers);
    assert_eq!(
        handle_buffered_response(Some(lambda_response)).unwrap().headers,
        vec![Header { name: "X-Umlaut".to_string(), value: "grüße\t!".as_bytes().to_vec() }]
    );
}
