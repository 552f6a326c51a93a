use lambda_gateway::auth::{check_auth, credential};
use lambda_gateway::config::{AuthMode, Config, LambdaInvokeMode};
use lambda_gateway::error::GatewayError;
use lambda_gateway::handler::{
    error_response, handler, health, respond_buffered, respond_unavailable, Decision,
};
use lambda_gateway::key_set::KeySet;
use lambda_gateway::message::{Header, HttpResponse};

fn header(name: &str, value: &[u8]) -> Header {
    Header { name: name.to_string(), value: value.to_vec() }
}

fn config(auth_mode: AuthMode, keys: &[&str]) -> Config {
    Config {
        lambda_function_name: "fn-name".to_string(),
        lambda_invoke_mode: LambdaInvokeMode::ResponseStream,
        api_keys: KeySet::from_keys(keys.iter().map(|k| k.to_string()).collect()),
        auth_mode,
        addr: "0.0.0.0:8000".to_string(),
    }
}

fn empty(status: u16) -> HttpResponse {
    HttpResponse { status, headers: Vec::new(), body: Vec::new() }
}

#[test]
fn test_health() {
    let response = health();
    assert_eq!(response.status, 200);
    assert_eq!(response, empty(200));
}

#[test]
fn auth_denial() {
    let config = config(AuthMode::ApiKey, &["k1"]);
    let headers = vec![header("x-api-key", b"wrong")];
    assert_eq!(check_auth(&config, &headers), Err(GatewayError::AuthDenied));
    match handler(&config, Some("p"), &vec![], "GET", &headers, b"") {
        Decision::Reject(response) => assert_eq!(response, empty(401)),
        Decision::Invoke(_) => panic!("the function must not be invoked"),
    }
}

#[test]
fn credential_lookup_order() {
    assert_eq!(credential(&vec![]), None);
    assert_eq!(credential(&vec![header("X-Api-Key", b"k1")]), Some("k1".to_string()));
    assert_eq!(
        credential(&vec![header("authorization", b"Bearer k2")]),
        Some("k2".to_string())
    );
    assert_eq!(
        credential(&vec![header("Authorization", b"Bearer k2"), header("x-api-key", b"k1")]),
        Some("k1".to_string())
    );
    assert_eq!(credential(&vec![header("authorization", b"bearer k2")]), None);
    assert_eq!(credential(&vec![header("authorization", b"Basic abc")]), None);
    assert_eq!(credential(&vec![header("authorization", b"Bearer")]), None);
    assert_eq!(credential(&vec![header("authorization", b"Bearer ")]), Some(String::new()));
    assert_eq!(
        credential(&vec![header("authorization", b"Bearer  k ")]),
        Some(" k ".to_string())
    );
    assert_eq!(credential(&vec![header("x-api-key", b"")]), Some(String::new()));
    assert_eq!(
        credential(&vec![header("x-api-key", b"first"), header("x-api-key", b"second")]),
        Some("first".to_string())
    );
    assert_eq!(
        credential(&vec![header("x-api-key", &[0xff]), header("authorization", b"Bearer k2")]),
        Some("k2".to_string())
    );
    assert_eq!(
        credential(&vec![header("x-api-key", &[0xff]), header("x-api-key", b"k1")]),
        None
    );
    assert_eq!(credential(&vec![header("authorization", &[b'B', b'e', b'a', b'r', b'e', b'r', b' ', 0x7f])]), None);
}

#[test]
fn api_key_mode_admits_configured_keys_only() {
    let config = config(AuthMode::ApiKey, &["k1", "k2"]);
    assert_eq!(check_auth(&config, &vec![header("x-api-key", b"k1")]), Ok(()));
    assert_eq!(check_auth(&config, &vec![header("authorization", b"Bearer k2")]), Ok(()));
    for denied in [
        vec![],
        vec![header("x-api-key", b"K1")],
        vec![header("x-api-key", b" k1")],
        vec![header("x-api-key", b"k1 ")],
        vec![header("x-api-key", b"k1,k2")],
        vec![header("authorization", b"k1")],
        vec![header("authorization", b"Bearer k1,k2")],
        vec![header("x-api-key", b"nope"), header("authorization", b"Bearer k1")],
        vec![header("api-key", b"k1")],
    ] {
        assert_eq!(check_auth(&config, &denied), Err(GatewayError::AuthDenied));
    }
}

#[test]
fn missing_credential_is_denied_even_if_the_empty_key_is_configured() {
    let config = config(AuthMode::ApiKey, &[""]);
    assert_eq!(check_auth(&config, &vec![]), Err(GatewayError::AuthDenied));
    assert_eq!(
        check_auth(&config, &vec![header("authorization", b"Basic x")]),
        Err(GatewayError::AuthDenied)
    );
    assert_eq!(check_auth(&config, &vec![header("x-api-key", b"")]), Ok(()));
}

#[test]
fn api_key_mode_without_keys_admits_nobody() {
    let config = config(AuthMode::ApiKey, &[]);
    assert_eq!(check_auth(&config, &vec![header("x-api-key", b"k1")]), Err(GatewayError::AuthDenied));
    assert_eq!(check_auth(&config, &vec![]), Err(GatewayError::AuthDenied));
}

#[test]
fn open_mode_admits_everything() {
    let config = config(AuthMode::Open, &["k1"]);
    assert_eq!(check_auth(&config, &vec![]), Ok(()));
    assert_eq!(check_auth(&config, &vec![header("x-api-key", b"wrong")]), Ok(()));
}

#[test]
fn admitted_request_is_invoked_with_its_event() {
    let config = config(AuthMode::ApiKey, &["k1"]);
    let headers = vec![header("X-Api-Key", b"k1"), header("Content-Type", b"text/plain")];
    let query = vec![("q".to_string(), "1".to_string())];
    match handler(&config, Some("a/b"), &query, "POST", &headers, b"hello") {
        Decision::Invoke(call) => {
            assert_eq!(call.function_name, "fn-name");
            assert_eq!(call.mode, LambdaInvokeMode::ResponseStream);
            assert_eq!(call.event.http_method, "POST");
            assert_eq!(call.event.path, "/a/b");
            assert_eq!(call.event.query_string_parameters.get("q"), Some(&"1".to_string()));
            assert_eq!(call.event.headers.get("x-api-key"), Some(&"k1".to_string()));
            assert_eq!(call.event.headers.get("content-type"), Some(&"text/plain".to_string()));
            assert!(!call.event.is_base64_encoded);
            assert_eq!(call.event.body, "hello");
            assert_eq!(call.event.target_group_arn, "");
            assert_eq!(call.payload, call.event.to_json());
            assert_eq!(
                call.payload,
                [
                    r#"{"httpMethod":"POST","#,
                    r#""headers":{"x-api-key":"k1","content-type":"text/plain"},"#,
                    r#""path":"/a/b","queryStringParameters":{"q":"1"},"#,
                    r#""isBase64Encoded":false,"body":"hello","#,
                    r#""requestContext":{"elb":{"targetGroupArn":""}}}"#,
                ]
                .concat()
            );
        }
        Decision::Reject(_) => panic!("the request presents a configured key"),
    }
}

#[test]
fn root_route_has_the_path_slash() {
    let config = config(AuthMode::Open, &[]);
    match handler(&config, None, &vec![], "GET", &vec![], b"") {
        Decision::Invoke(call) => {
            assert_eq!(call.event.path, "/");
            assert!(call.event.is_base64_encoded);
            assert_eq!(call.event.body, "");
            assert_eq!(
                call.payload,
                [
                    r#"{"httpMethod":"GET","headers":{},"path":"/","queryStringParameters":{},"#,
                    r#""isBase64Encoded":true,"body":"","#,
                    r#""requestContext":{"elb":{"targetGroupArn":""}}}"#,
                ]
                .concat()
            );
        }
        Decision::Reject(_) => panic!("open mode admits every request"),
    }
}

#[test]
fn errors_and_their_statuses() {
    assert_eq!(GatewayError::AuthDenied.status(), Some(401));
    assert_eq!(GatewayError::UpstreamUnavailable.status(), Some(502));
    assert_eq!(GatewayError::BadUpstreamResponse.status(), Some(502));
    assert_eq!(GatewayError::UpstreamStreamError.status(), None);
    assert_eq!(GatewayError::MalformedPrelude.status(), None);
    assert_eq!(error_response(GatewayError::AuthDenied), Some(empty(401)));
    assert_eq!(error_response(GatewayError::UpstreamUnavailable), Some(empty(502)));
    assert_eq!(error_response(GatewayError::BadUpstreamResponse), Some(empty(502)));
    assert_eq!(error_response(GatewayError::UpstreamStreamError), None);
    assert_eq!(error_response(GatewayError::MalformedPrelude), None);
    assert_eq!(respond_buffered(None), empty(502));
    assert_eq!(respond_unavailable(), empty(502));
}
