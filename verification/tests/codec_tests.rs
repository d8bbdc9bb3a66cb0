use jarvis_ipc::json::JsonValue;
use jarvis_ipc::messages::{IpcRequest, IpcResponse, encode_request, encode_response,
    decode_request, decode_response};

fn jeq(a: &JsonValue, b: &JsonValue) -> bool {
    match (a, b) {
        (JsonValue::Null, JsonValue::Null) => true,
        (JsonValue::Bool(x), JsonValue::Bool(y)) => x == y,
        (JsonValue::Number(x), JsonValue::Number(y)) => x == y,
        (JsonValue::Text(x), JsonValue::Text(y)) => x == y,
        (JsonValue::Array(xs), JsonValue::Array(ys)) => {
            xs.len() == ys.len() && xs.iter().zip(ys.iter()).all(|(x, y)| jeq(x, y))
        }
        (JsonValue::Object(xs), JsonValue::Object(ys)) => {
            xs.len() == ys.len()
                && xs.iter().zip(ys.iter()).all(|(x, y)| x.0 == y.0 && jeq(&x.1, &y.1))
        }
        _ => false,
    }
}

fn obj(pairs: Vec<(&str, JsonValue)>) -> JsonValue {
    JsonValue::Object(pairs.into_iter().map(|(k, v)| (k.to_string(), v)).collect())
}

fn text(s: &str) -> JsonValue {
    JsonValue::Text(s.to_string())
}

fn get<'a>(v: &'a JsonValue, key: &str) -> Option<&'a JsonValue> {
    match v {
        JsonValue::Object(ms) => ms.iter().find(|(k, _)| k == key).map(|(_, v)| v),
        _ => None,
    }
}

#[test]
fn test_json_construction() {
    let args = obj(vec![
        ("conversation_id", text("test-123")),
        ("message", text("hello")),
        ("stream", JsonValue::Bool(false)),
    ]);

    assert!(jeq(get(&args, "conversation_id").unwrap(), &text("test-123")));
    assert!(jeq(get(&args, "message").unwrap(), &text("hello")));
    assert!(jeq(get(&args, "stream").unwrap(), &JsonValue::Bool(false)));
}

#[test]
fn test_ipc_request_serialization() {
    let request = IpcRequest {
        id: "test-123".to_string(),
        function: "agent_chat".to_string(),
        args: obj(vec![("message", text("hello"))]),
    };

    let json = encode_request(&request);
    assert!(json.contains("test-123"));
    assert!(json.contains("agent_chat"));
    assert!(json.contains("hello"));
}

#[test]
fn test_ipc_request_with_complex_args() {
    let request = IpcRequest {
        id: "test-456".to_string(),
        function: "kb_search".to_string(),
        args: obj(vec![
            ("kb_id", text("kb_001")),
            ("query", text("test query")),
            ("top_k", JsonValue::Number(5)),
            ("filters", obj(vec![("category", text("docs"))])),
        ]),
    };

    let json = encode_request(&request);
    let parsed: IpcRequest = decode_request(&json).unwrap();

    assert_eq!(parsed.id, "test-456");
    assert_eq!(parsed.function, "kb_search");
    assert!(jeq(get(&parsed.args, "kb_id").unwrap(), &text("kb_001")));
    assert!(jeq(get(&parsed.args, "top_k").unwrap(), &JsonValue::Number(5)));
}

#[test]
fn test_ipc_request_with_empty_args() {
    let request = IpcRequest {
        id: "test-789".to_string(),
        function: "start_recording".to_string(),
        args: obj(vec![]),
    };

    let json = encode_request(&request);
    assert!(json.contains("test-789"));
    assert!(json.contains("start_recording"));
}

#[test]
fn test_ipc_response_deserialization() {
    let json = r#"{"id":"test-123","success":true,"result":{"message":"hello"}}"#;
    let response: IpcResponse = decode_response(json).unwrap();

    assert_eq!(response.id, "test-123");
    assert!(response.success);
    assert!(response.result.is_some());
    assert!(response.error.is_none());
}

#[test]
fn test_ipc_response_error_deserialization() {
    let json = r#"{"id":"test-456","success":false,"error":"Something went wrong"}"#;
    let response: IpcResponse = decode_response(json).unwrap();

    assert_eq!(response.id, "test-456");
    assert!(!response.success);
    assert!(response.result.is_none());
    assert_eq!(response.error.unwrap(), "Something went wrong");
}

#[test]
fn test_ipc_response_with_null_result() {
    let json = r#"{"id":"test-789","success":true}"#;
    let response: IpcResponse = decode_response(json).unwrap();

    assert_eq!(response.id, "test-789");
    assert!(response.success);
    assert!(response.result.is_none());
}

#[test]
fn test_ipc_response_with_array_result() {
    let json = r#"{"id":"test-101","success":true,"result":[1,2,3]}"#;
    let response: IpcResponse = decode_response(json).unwrap();

    assert_eq!(response.id, "test-101");
    assert!(response.success);
    assert!(response.result.is_some());

    if let Some(JsonValue::Array(arr)) = response.result {
        assert_eq!(arr.len(), 3);
    } else {
        panic!("Expected array result");
    }
}

#[test]
fn test_ipc_response_serialization() {
    let response = IpcResponse {
        id: "test-202".to_string(),
        success: true,
        result: Some(obj(vec![("status", text("ok"))])),
        error: None,
    };

    let json = encode_response(&response);
    assert!(json.contains("test-202"));
    assert!(json.contains("true"));
    assert!(json.contains("status"));
}

#[test]
fn test_ipc_request_clone() {
    let request = IpcRequest {
        id: "test-clone".to_string(),
        function: "test_func".to_string(),
        args: obj(vec![("key", text("value"))]),
    };

    let cloned = request.clone();

    assert_eq!(request.id, cloned.id);
    assert_eq!(request.function, cloned.function);
    assert!(jeq(&request.args, &cloned.args));
}

#[test]
fn test_ipc_response_clone() {
    let response = IpcResponse {
        id: "test-clone".to_string(),
        success: true,
        result: Some(obj(vec![("data", text("test"))])),
        error: None,
    };

    let cloned = response.clone();

    assert_eq!(response.id, cloned.id);
    assert_eq!(response.success, cloned.success);
    assert!(match (&response.result, &cloned.result) {
        (Some(a), Some(b)) => jeq(a, b),
        (None, None) => true,
        _ => false,
    });
    assert_eq!(response.error, cloned.error);
}

#[test]
fn test_ipc_request_debug() {
    let request = IpcRequest {
        id: "test-debug".to_string(),
        function: "test_func".to_string(),
        args: obj(vec![("key", text("value"))]),
    };

    let debug_str = format!("{:?}", request);
    assert!(debug_str.contains("test-debug"));
    assert!(debug_str.contains("test_func"));
}

#[test]
fn test_ipc_response_debug() {
    let response = IpcResponse {
        id: "test-debug".to_string(),
        success: false,
        result: None,
        error: Some("Test error".to_string()),
    };

    let debug_str = format!("{:?}", response);
    assert!(debug_str.contains("test-debug"));
    assert!(debug_str.contains("false"));
    assert!(debug_str.contains("Test error"));
}

#[test]
fn round_trip_of_request_with_abc_identifier() {
    let request = IpcRequest {
        id: "abc".to_string(),
        function: "echo".to_string(),
        args: obj(vec![("x", JsonValue::Number(1))]),
    };
    let line = encode_request(&request);
    assert_eq!(line, r#"{"id":"abc","function":"echo","args":{"x":1}}"#);

    let response = decode_response(r#"{"id":"abc","success":true,"result":{"x":1}}"#).unwrap();
    assert_eq!(response.id, "abc");
    assert!(response.success);
    assert!(jeq(
        &response.result.unwrap(),
        &obj(vec![("x", JsonValue::Number(1))])
    ));
}

#[test]
fn escapes_round_trip_through_the_wire() {
    let tricky = "a\"b\\c\nd\te\ru\u{0008}f\u{000C}g\u{0001}h";
    let request = IpcRequest {
        id: "esc".to_string(),
        function: tricky.to_string(),
        args: text(tricky),
    };
    let line = encode_request(&request);
    assert!(!line.contains('\n'));
    let parsed = decode_request(&line).unwrap();
    assert_eq!(parsed.function, tricky);
    assert!(jeq(&parsed.args, &text(tricky)));
}

#[test]
fn non_ascii_text_round_trips() {
    let s = "héllo wörld — 日本語 🚀";
    let request = IpcRequest {
        id: "uni".to_string(),
        function: "echo".to_string(),
        args: text(s),
    };
    let line = encode_request(&request);
    let parsed = decode_request(&line).unwrap();
    assert!(jeq(&parsed.args, &text(s)));
}

#[test]
fn surrogate_pair_escapes_decode() {
    let json = "{\"id\":\"s\",\"success\":true,\"result\":\"\\ud83d\\ude00\"}";
    let response = decode_response(json).unwrap();
    assert!(jeq(&response.result.unwrap(), &text("\u{1F600}")));
}

#[test]
fn lone_surrogate_escape_is_refused() {
    let json = "{\"id\":\"s\",\"success\":true,\"result\":\"\\ud83d\"}";
    assert!(decode_response(json).is_none());
}

#[test]
fn number_bounds_round_trip() {
    for n in [0i64, 1, -1, 42, i64::MAX, i64::MIN] {
        let request = IpcRequest {
            id: "n".to_string(),
            function: "echo".to_string(),
            args: JsonValue::Number(n),
        };
        let line = encode_request(&request);
        let parsed = decode_request(&line).unwrap();
        assert!(jeq(&parsed.args, &JsonValue::Number(n)), "failed for {}", n);
    }
}

#[test]
fn numbers_outside_the_machine_range_are_refused() {
    assert!(decode_response(r#"{"id":"x","success":true,"result":9223372036854775808}"#).is_none());
    assert!(
        decode_response(r#"{"id":"x","success":true,"result":-9223372036854775809}"#).is_none()
    );
    assert!(
        decode_response(r#"{"id":"x","success":true,"result":9223372036854775807}"#).is_some()
    );
    assert!(
        decode_response(r#"{"id":"x","success":true,"result":-9223372036854775808}"#).is_some()
    );
}

#[test]
fn fractions_exponents_and_leading_zeros_are_refused() {
    assert!(decode_response(r#"{"id":"x","success":true,"result":1.5}"#).is_none());
    assert!(decode_response(r#"{"id":"x","success":true,"result":1e3}"#).is_none());
    assert!(decode_response(r#"{"id":"x","success":true,"result":01}"#).is_none());
    assert!(decode_response(r#"{"id":"x","success":true,"result":0}"#).is_some());
}

#[test]
fn whitespace_between_tokens_is_accepted() {
    let json = " { \"id\" : \"ws\" ,\t\"success\" : false , \"error\" : \"boom\" } ";
    let response = decode_response(json).unwrap();
    assert_eq!(response.id, "ws");
    assert!(!response.success);
    assert_eq!(response.error.unwrap(), "boom");
}

#[test]
fn malformed_lines_are_refused() {
    for line in [
        "",
        "not json",
        "{",
        r#"{"id":"x"}"#,
        r#"{"id":42,"success":true}"#,
        r#"{"id":"x","success":"yes"}"#,
        r#"{"id":"x","success":true,"error":5}"#,
        r#"{"id":"x","success":true} trailing"#,
        r#"["id","x"]"#,
        r#"{"id":"x","success":true,"result":"unterminated}"#,
    ] {
        assert!(decode_response(line).is_none(), "accepted: {}", line);
    }
}

#[test]
fn a_duplicated_recognized_member_is_refused() {
    assert!(decode_response(r#"{"id":"first","id":"second","success":true}"#).is_none());
    assert!(decode_response(r#"{"id":"x","success":true,"success":false}"#).is_none());
    assert!(decode_response(r#"{"id":"x","success":true,"result":1,"result":2}"#).is_none());
    assert!(decode_response(r#"{"id":"x","success":false,"error":"a","error":"b"}"#).is_none());
    assert!(decode_request(r#"{"id":"x","function":"f","args":{},"args":{}}"#).is_none());
}

#[test]
fn unrecognized_members_may_repeat_and_are_ignored() {
    let json = r#"{"id":"x","success":true,"extra":1,"extra":2}"#;
    let response = decode_response(json).unwrap();
    assert_eq!(response.id, "x");
    assert!(response.success);
    assert!(response.result.is_none());
}

#[test]
fn response_members_appear_exactly_when_present() {
    let with_error = IpcResponse {
        id: "e".to_string(),
        success: false,
        result: None,
        error: Some("bad".to_string()),
    };
    assert_eq!(encode_response(&with_error), r#"{"id":"e","success":false,"error":"bad"}"#);

    let bare = IpcResponse { id: "b".to_string(), success: true, result: None, error: None };
    assert_eq!(encode_response(&bare), r#"{"id":"b","success":true}"#);

    let both = IpcResponse {
        id: "c".to_string(),
        success: true,
        result: Some(JsonValue::Null),
        error: Some("note".to_string()),
    };
    assert_eq!(encode_response(&both), r#"{"id":"c","success":true,"result":null,"error":"note"}"#);
}

#[test]
fn encoded_requests_agree_with_an_independent_reader() {
    let request = IpcRequest {
        id: "x-1".to_string(),
        function: "do_it".to_string(),
        args: obj(vec![
            ("n", JsonValue::Number(-7)),
            ("flag", JsonValue::Bool(true)),
            ("items", JsonValue::Array(vec![text("a"), JsonValue::Null])),
        ]),
    };
    let line = encode_request(&request);
    let outside: serde_json::Value = serde_json::from_str(&line).unwrap();
    assert_eq!(outside["id"], serde_json::Value::String("x-1".to_string()));
    assert_eq!(outside["function"], serde_json::Value::String("do_it".to_string()));
    assert_eq!(outside["args"]["n"], serde_json::Value::from(-7i64));
    assert_eq!(outside["args"]["flag"], serde_json::Value::Bool(true));
    assert_eq!(outside["args"]["items"][0], serde_json::Value::String("a".to_string()));
    assert_eq!(outside["args"]["items"][1], serde_json::Value::Null);
}

#[test]
fn independently_written_responses_decode() {
    let mut m = serde_json::Map::new();
    m.insert("id".to_string(), serde_json::Value::String("w-2".to_string()));
    m.insert("success".to_string(), serde_json::Value::Bool(true));
    m.insert("result".to_string(), serde_json::Value::from(123i64));
    let line = serde_json::to_string(&serde_json::Value::Object(m)).unwrap();
    let response = decode_response(&line).unwrap();
    assert_eq!(response.id, "w-2");
    assert!(response.success);
    assert!(jeq(&response.result.unwrap(), &JsonValue::Number(123)));
}
