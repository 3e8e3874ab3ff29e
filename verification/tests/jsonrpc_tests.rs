use kotlin_analyzer::codec::encode_message;
use kotlin_analyzer::errors::ProtocolError;
use kotlin_analyzer::jsonrpc::parse_response;
use kotlin_analyzer::jsonrpc::render_request;
use kotlin_analyzer::jsonrpc::Request;

fn params_text(json: &str) -> String {
    // normalize through the JSON library, as the adapter would
    let v: serde_json::Value = serde_json::from_str(json).unwrap();
    serde_json::to_string(&v).unwrap()
}

#[test]
fn serialize_request() {
    let req = Request::new(1, "hover", Some(params_text(r#"{"uri": "file:///a.kt"}"#)));
    let json = render_request(&req);
    assert!(json.contains("\"jsonrpc\":\"2.0\""));
    assert!(json.contains("\"id\":1"));
    assert!(json.contains("\"method\":\"hover\""));
}

#[test]
fn serialize_notification() {
    let req = Request::notification("textDocument/didOpen", None);
    let json = render_request(&req);
    assert!(!json.contains("\"id\""));
}

#[test]
fn encode_message_format() {
    let req = Request::new(1, "ping", None);
    let encoded = encode_message(&req);
    let text = String::from_utf8(encoded).unwrap();
    assert!(text.starts_with("Content-Length: "));
    assert!(text.contains("\r\n\r\n"));
}

#[test]
fn deserialize_response() {
    let json = r#"{"jsonrpc":"2.0","id":1,"result":{"pong":true}}"#;
    let resp = parse_response(json.as_bytes()).unwrap();
    assert_eq!(resp.id, Some(1));
    assert!(resp.result.is_some());
    assert!(resp.error.is_none());
}

#[test]
fn deserialize_error_response() {
    let json = r#"{"jsonrpc":"2.0","id":1,"error":{"code":-32601,"message":"Method not found"}}"#;
    let resp = parse_response(json.as_bytes()).unwrap();
    assert_eq!(resp.id, Some(1));
    assert!(resp.result.is_none());
    let err = resp.error.unwrap();
    assert_eq!(err.code, -32601);
    assert_eq!(err.message, "Method not found");
}

#[test]
fn request_with_params() {
    let params = params_text(
        r#"{
        "uri": "file:///test.kt",
        "line": 10,
        "character": 5
    }"#,
    );
    let req = Request::new(42, "textDocument/hover", Some(params));
    assert_eq!(req.id, Some(42));
    assert_eq!(req.method, "textDocument/hover");
    let p: serde_json::Value = serde_json::from_str(req.params.as_ref().unwrap()).unwrap();
    assert_eq!(p["line"], 10);
}

#[test]
fn render_request_exact_text() {
    let req = Request::new(1, "hover", Some(r#"{"uri":"file:///a.kt"}"#.into()));
    let json = render_request(&req);
    assert_eq!(
        json,
        r#"{"jsonrpc":"2.0","id":1,"method":"hover","params":{"uri":"file:///a.kt"}}"#
    );
}

#[test]
fn render_escapes_method_characters() {
    let req = Request::notification("odd\"name\\with\nnoise", None);
    let json = render_request(&req);
    assert_eq!(
        json,
        "{\"jsonrpc\":\"2.0\",\"method\":\"odd\\\"name\\\\with\\u000anoise\"}"
    );
    // the rendered text must stay parseable JSON
    let v: serde_json::Value = serde_json::from_str(&json).unwrap();
    assert_eq!(v["method"], "odd\"name\\with\nnoise");
}

#[test]
fn parse_response_rejects_garbage() {
    assert!(matches!(
        parse_response(b"not json at all"),
        Err(ProtocolError::JsonParse(_))
    ));
    assert!(matches!(
        parse_response(br#"{"id":1}"#),
        Err(ProtocolError::InvalidJsonRpc(_))
    ));
    assert!(matches!(
        parse_response(br#"{"jsonrpc":"2.0","id":"seven"}"#),
        Err(ProtocolError::InvalidJsonRpc(_))
    ));
}

#[test]
fn parse_response_null_result_counts_as_absent() {
    let resp = parse_response(br#"{"jsonrpc":"2.0","id":3,"result":null}"#).unwrap();
    assert_eq!(resp.id, Some(3));
    assert!(resp.result.is_none());
    assert!(resp.error.is_none());
}

#[test]
fn encode_message_exact_frame() {
    let req = Request::new(1, "ping", None);
    let encoded = encode_message(&req);
    let body = r#"{"jsonrpc":"2.0","id":1,"method":"ping"}"#;
    let expected = format!("Content-Length: {}\r\n\r\n{}", body.len(), body);
    assert_eq!(String::from_utf8(encoded).unwrap(), expected);
}

#[test]
fn parse_response_null_id_counts_as_absent() {
    let resp = parse_response(br#"{"jsonrpc":"2.0","id":null,"result":{"ok":1}}"#).unwrap();
    assert!(resp.id.is_none());
    assert!(resp.result.is_some());
}

#[test]
fn parse_response_error_with_data() {
    let json = r#"{"jsonrpc":"2.0","id":4,"error":{"code":-1,"message":"boom","data":{"at":3}}}"#;
    let resp = parse_response(json.as_bytes()).unwrap();
    let err = resp.error.unwrap();
    assert_eq!(err.code, -1);
    assert_eq!(err.message, "boom");
    let data = err.data.unwrap();
    assert_eq!(data["at"], 3);
}

#[test]
fn parse_response_rejects_out_of_range_error_code() {
    let json = r#"{"jsonrpc":"2.0","id":4,"error":{"code":3000000000,"message":"m"}}"#;
    assert!(matches!(
        parse_response(json.as_bytes()),
        Err(ProtocolError::InvalidJsonRpc(_))
    ));
}
