use b10x_mcp::error::ClientError;
use b10x_mcp::identity::ConnectionId;
use b10x_mcp::json::Json;
use b10x_mcp::limits::{ensure_bound, Limits, TimeSpan};
use b10x_mcp::limits::{CURRENT_PROTOCOL_VERSION, LEGACY_PROTOCOL_VERSION};
use b10x_mcp::secret::SecretString;
use b10x_mcp::tools::{object, serialized_len, ToolCall, ToolDescriptor, ToolResult, ToolSnapshot};

fn json(text: &str) -> Json {
    Json::parse(text).unwrap()
}

fn limits_with(change: fn(&mut Limits)) -> Limits {
    let mut limits = Limits::default();
    change(&mut limits);
    limits
}

fn descriptor(text: &str) -> Result<ToolDescriptor, ClientError> {
    ToolDescriptor::from_raw(json(text), Limits::default())
}

fn digest(bytes: &[u8]) -> String {
    let mut out = String::new();
    for byte in <sha2::Sha256 as sha2::Digest>::digest(bytes) {
        out.push_str(&format!("{byte:02x}"));
    }
    out
}

#[test]
fn connection_ids_are_client_owned_and_provider_safe() {
    assert_eq!(ConnectionId::new("git_hub1").unwrap().as_str(), "git_hub1");
    assert!(ConnectionId::new("GitHub").is_err());
    assert!(ConnectionId::new("").is_err());
}

#[test]
fn connection_ids_end_at_sixty_four_characters() {
    assert!(ConnectionId::new(&"a".repeat(64)).is_ok());
    let error = ConnectionId::new(&"a".repeat(65)).unwrap_err();
    assert_eq!(
        error.to_string(),
        "configuration: connection id must match [a-z0-9_]{1,64}"
    );
    assert!(ConnectionId::new("a-b").is_err());
    assert!(ConnectionId::new("../up").is_err());
    assert!(ConnectionId::new("\u{e9}").is_err());
    assert_eq!(ConnectionId::new("a_0").unwrap().clone().into_string(), "a_0");
}

#[test]
fn duplicate_tools_are_refused_by_name() {
    let raw = json(r#"{"name":"same","inputSchema":{"type":"object"}}"#);
    let tool = ToolDescriptor::from_raw(raw, Limits::default()).unwrap();
    let error = ToolSnapshot::new(
        ConnectionId::new("server").unwrap(),
        CURRENT_PROTOCOL_VERSION,
        vec![tool.clone(), tool],
        Limits::default(),
    )
    .unwrap_err();
    assert!(error.to_string().contains("duplicate tool `same`"));
}

#[test]
fn result_bound_refuses_instead_of_truncating() {
    let limits = Limits {
        max_result_bytes: 8,
        ..Limits::default()
    };
    let error = ToolResult::from_raw(json(r#"{"text":"too long"}"#), limits).unwrap_err();
    assert!(matches!(
        error,
        ClientError::Bound {
            name: "max_result_bytes",
            ..
        }
    ));
}

#[test]
fn secrets_are_redacted_and_zeroized_by_type() {
    let secret = SecretString::new("SENTINEL-NOT-A-REAL-TOKEN".to_owned());
    assert_eq!(secret.redacted(), "SecretString([REDACTED])");
    assert_eq!(secret.expose(), "SENTINEL-NOT-A-REAL-TOKEN");
    let mut wiped = secret.clone();
    wiped.zeroize();
    assert_eq!(wiped.expose(), "");
    assert_eq!(secret.expose(), "SENTINEL-NOT-A-REAL-TOKEN");
}

#[test]
fn results_within_the_bound_are_whole() {
    let raw = json(r#"{"text":"too long"}"#);
    let size = serialized_len(&raw);
    assert_eq!(size, 19);
    let limits = Limits {
        max_result_bytes: size,
        ..Limits::default()
    };
    let result = ToolResult::from_raw(raw.clone(), limits).unwrap();
    assert_eq!(result.raw, raw);
    assert!(!result.is_error);
    assert!(ToolResult::from_raw(json(r#"{"isError":true}"#), Limits::default()).unwrap().is_error);
    assert!(ToolResult::from_raw(json(r#"{"is_error":true}"#), Limits::default()).unwrap().is_error);
    assert!(!ToolResult::from_raw(json(r#"{"isError":false,"is_error":true}"#), Limits::default())
        .unwrap()
        .is_error);
    assert!(!ToolResult::from_raw(json(r#"{"isError":"yes"}"#), Limits::default()).unwrap().is_error);
    assert!(!ToolResult::from_raw(json("7"), Limits::default()).unwrap().is_error);
}

#[test]
fn descriptors_are_read_field_by_field() {
    let tool = descriptor(
        r#"{"name":"t","description":"d","inputSchema":{"a":1},"outputSchema":{"b":[true,null]},"x":1.5}"#,
    )
    .unwrap();
    assert_eq!(tool.name, "t");
    assert_eq!(tool.description.as_deref(), Some("d"));
    assert_eq!(tool.input_schema, json(r#"{"a":1}"#));
    assert_eq!(tool.output_schema, Some(json(r#"{"b":[true,null]}"#)));
    assert_eq!(tool.raw.get("x"), Some(&json("1.5")));
    let snake = descriptor(r#"{"name":"t","input_schema":{},"output_schema":7,"description":3}"#).unwrap();
    assert_eq!(snake.description, None);
    assert_eq!(snake.input_schema, json("{}"));
    assert_eq!(snake.output_schema, Some(json("7")));
    let both = descriptor(r#"{"name":"t","input_schema":{"no":1},"inputSchema":{}}"#).unwrap();
    assert_eq!(both.input_schema, json("{}"));
}

#[test]
fn malformed_descriptors_are_refused_by_reason() {
    let cases = [
        ("[]", "protocol: tool descriptor is not a JSON object"),
        (r#"{"inputSchema":{}}"#, "protocol: tool descriptor has no name"),
        (r#"{"name":"","inputSchema":{}}"#, "protocol: tool descriptor has no name"),
        (r#"{"name":4,"inputSchema":{}}"#, "protocol: tool descriptor has no name"),
        (r#"{"name":"t"}"#, "protocol: tool `t` has no input schema"),
        (
            r#"{"name":"t","inputSchema":[]}"#,
            "protocol: tool `t` input schema is not an object",
        ),
    ];
    for (text, expected) in cases {
        assert_eq!(descriptor(text).unwrap_err().to_string(), expected);
    }
    let tight = limits_with(|limits| limits.max_tool_descriptor_bytes = 3);
    assert_eq!(
        ToolDescriptor::from_raw(json("[1,2]"), tight).unwrap_err().to_string(),
        "bound `max_tool_descriptor_bytes`: 5 exceeds 3"
    );
    assert!(ToolDescriptor::from_sized(json(r#"{"name":"t","inputSchema":{}}"#), 3, tight).is_ok());
    assert!(ToolDescriptor::from_sized(json(r#"{"name":"t","inputSchema":{}}"#), 4, tight).is_err());
}

#[test]
fn snapshots_digest_their_canonical_contents() {
    let tool = descriptor(r#"{"name":"same","inputSchema":{"type":"object"}}"#).unwrap();
    let other = descriptor(
        r#"{"name":"b\"\\","description":"x\ny","inputSchema":{},"outputSchema":{"z":0,"a":1}}"#,
    )
    .unwrap();
    let snapshot = ToolSnapshot::new(
        ConnectionId::new("server").unwrap(),
        CURRENT_PROTOCOL_VERSION,
        vec![tool, other],
        Limits::default(),
    )
    .unwrap();
    let canonical = concat_parts(&[
        r#"["server","2026-07-28",["#,
        r#"{"name":"same","description":null,"input_schema":{"type":"object"},"output_schema":null,"#,
        r#""raw":{"inputSchema":{"type":"object"},"name":"same"}},"#,
        r#"{"name":"b\"\\","description":"x\ny","input_schema":{},"output_schema":{"a":1,"z":0},"#,
        r#""raw":{"description":"x\ny","inputSchema":{},"name":"b\"\\","outputSchema":{"a":1,"z":0}}}"#,
        "]]",
    ]);
    assert_eq!(snapshot.sha256, digest(canonical.as_bytes()));
    assert_eq!(snapshot.tool("same").unwrap().name, "same");
    assert!(snapshot.tool("absent").is_none());
    assert_eq!(snapshot.clone(), snapshot);
}

fn concat_parts(parts: &[&str]) -> String {
    let mut out = String::new();
    for part in parts {
        out.push_str(part);
    }
    out
}

#[test]
fn snapshots_take_no_more_tools_than_allowed() {
    let tools: Vec<ToolDescriptor> = (0..3)
        .map(|i| descriptor(&format!(r#"{{"name":"t{i}","inputSchema":{{}}}}"#)).unwrap())
        .collect();
    let two = limits_with(|limits| limits.max_tools = 2);
    let error = ToolSnapshot::new(ConnectionId::new("s").unwrap(), "v", tools, two).unwrap_err();
    assert_eq!(error.to_string(), "bound `max_tools`: 3 exceeds 2");
}

#[test]
fn calls_take_an_object_within_its_bound() {
    let call = |text: &str| ToolCall {
        name: "t".to_owned(),
        arguments: json(text),
    };
    assert!(call("{}").validate(Limits::default()).is_ok());
    assert_eq!(
        call("[]").validate(Limits::default()).unwrap_err().to_string(),
        "protocol: arguments for `t` are not a JSON object"
    );
    let tight = limits_with(|limits| limits.max_arguments_bytes = 7);
    assert!(call(r#"{"a":1}"#).validate(tight).is_ok());
    assert_eq!(
        call(r#"{"a":12}"#).validate(tight).unwrap_err().to_string(),
        "bound `max_arguments_bytes`: 8 exceeds 7"
    );
    assert!(call("{}").clone().validate_sized(8, tight).is_err());
}

#[test]
fn failures_are_shown_by_class() {
    let id = ConnectionId::new("c").unwrap();
    let cases = [
        (ClientError::Configuration("x".to_owned()), "configuration: x"),
        (ClientError::Protocol("x".to_owned()), "protocol: x"),
        (ClientError::Transport("x".to_owned()), "transport: x"),
        (
            ClientError::AuthorizationRequired { connection: id.clone(), scope: None },
            "authorization required for `c`",
        ),
        (
            ClientError::AuthorizationRequired { connection: id, scope: Some("a b".to_owned()) },
            "authorization required for `c` with scope `a b`",
        ),
        (
            ClientError::UnsupportedFeature { feature: "tasks" },
            "unsupported MCP feature `tasks`",
        ),
        (ClientError::Cancelled, "cancelled"),
        (
            ClientError::Bound { name: "n", actual: 1205, limit: 0 },
            "bound `n`: 1205 exceeds 0",
        ),
    ];
    for (error, shown) in cases {
        assert_eq!(error.to_string(), shown);
        assert_eq!(error.clone(), error);
    }
}

#[test]
fn bounds_admit_their_limit() {
    assert!(ensure_bound("n", 7, 7).is_ok());
    assert_eq!(
        ensure_bound("n", 8, 7).unwrap_err(),
        ClientError::Bound { name: "n", actual: 8, limit: 7 }
    );
}

#[test]
fn default_limits_and_revisions_are_fixed() {
    let limits = Limits::default();
    assert_eq!(limits.max_frame_bytes, 1024 * 1024);
    assert_eq!(limits.max_tools, 512);
    assert_eq!(limits.max_tool_descriptor_bytes, 64 * 1024);
    assert_eq!(limits.max_arguments_bytes, 64 * 1024);
    assert_eq!(limits.max_result_bytes, 256 * 1024);
    assert_eq!(limits.max_pages, 128);
    assert_eq!(limits.request_timeout, TimeSpan { secs: 30, nanos: 0 });
    assert_eq!(CURRENT_PROTOCOL_VERSION, "2026-07-28");
    assert_eq!(LEGACY_PROTOCOL_VERSION, "2025-11-25");
}

#[test]
fn the_shorter_span_counts() {
    let a = TimeSpan { secs: 3, nanos: 5 };
    let b = TimeSpan { secs: 3, nanos: 6 };
    let c = TimeSpan { secs: 2, nanos: 900 };
    assert_eq!(a.min(b), a);
    assert_eq!(b.min(a), a);
    assert_eq!(a.min(c), c);
    assert_eq!(TimeSpan::from_secs(4), TimeSpan { secs: 4, nanos: 0 });
}

#[test]
fn objects_keep_their_entries() {
    let value = object(vec![
        ("b".to_owned(), json("1")),
        ("a".to_owned(), json("[2]")),
        ("b".to_owned(), json("3")),
    ]);
    assert_eq!(value.get("b"), Some(&json("3")));
    assert_eq!(value.encode(), br#"{"a":[2],"b":3}"#.to_vec());
}

#[test]
fn connection_ids_convert_to_and_from_text() {
    let id = ConnectionId::try_from("git_hub1".to_owned()).unwrap();
    assert_eq!(id.as_str(), "git_hub1");
    assert_eq!(String::from(id), "git_hub1");
    assert_eq!(
        ConnectionId::try_from("GitHub".to_owned()).unwrap_err().to_string(),
        "configuration: connection id must match [a-z0-9_]{1,64}"
    );
}
