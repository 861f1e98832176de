use b10x_mcp::controlled::{
    announcement, json_rpc_id, mcp_response, read_head_line, request_method, respond, serve_http,
    HeadLine,
};
use b10x_mcp::json::Json;
use b10x_mcp::limits::Limits;
use b10x_mcp::paths::UnixPath;
use b10x_mcp::testkit::{
    build_controlled_server, controlled_server_source, synthetic_sized, synthetic_snapshot,
    synthetic_tool, Compilation,
};
use b10x_mcp::tools::ToolDescriptor;

#[test]
fn annotations_are_retained_but_not_interpreted() {
    let snapshot = synthetic_snapshot("synthetic").unwrap();
    assert_eq!(snapshot.tools.len(), 2);
    assert_eq!(
        snapshot.tools[0].raw.get("annotations").unwrap().get("readOnlyHint"),
        Some(&Json::Bool(false))
    );
}

#[test]
fn synthetic_snapshots_are_deterministic() {
    let one = synthetic_snapshot("synthetic").unwrap();
    assert_eq!(one, synthetic_snapshot("synthetic").unwrap());
    assert_ne!(one.sha256, synthetic_snapshot("other").unwrap().sha256);
    assert_eq!(one.protocol_version, "2026-07-28");
    assert_eq!(one.tools[1].name, "close_issue");
    assert!(synthetic_snapshot("No").is_err());
    assert!(synthetic_sized("synthetic", 65_537, 1).is_err());
    assert!(synthetic_sized("synthetic", 1, 65_537).is_err());
    assert_eq!(
        synthetic_tool("a", "b", true).encode(),
        br#"{"annotations":{"readOnlyHint":true},"description":"b","inputSchema":{"properties":{"id":{"type":"string"}},"type":"object"},"name":"a"}"#.to_vec()
    );
}

#[test]
fn annotations_change_no_field_but_the_raw_value() {
    let a = ToolDescriptor::from_raw(synthetic_tool("t", "d", true), Limits::default()).unwrap();
    let b = ToolDescriptor::from_raw(synthetic_tool("t", "d", false), Limits::default()).unwrap();
    assert_ne!(a.raw, b.raw);
    assert_eq!(a.name, b.name);
    assert_eq!(a.description, b.description);
    assert_eq!(a.input_schema, b.input_schema);
    assert_eq!(a.output_schema, b.output_schema);
}

#[test]
fn identifiers_are_taken_as_written() {
    let cases = [
        (r#"{"id":7,"x":1}"#, Some("7")),
        (r#"{"x":1,"id": 7 }"#, Some("7")),
        (r#"{"id":"a,b}","x":1}"#, Some("\"a,b}\"")),
        (r#"{"id":"open"#, None),
        (r#"{"id":"a\"b","x":1}"#, Some(r#""a\"b""#)),
        (r#"{"id" : 8}"#, Some("8")),
        (r#"{"params":{"id":"x"}}"#, None),
        (r#"{"params":{"id":"x"},"id":4}"#, Some("4")),
        (r#"{"params":[{"id":1}],"id":5}"#, Some("5")),
        (r#"{"note":"\"id\":1","id":6}"#, Some("6")),
        (r#"{"note":"{","id":9}"#, Some("9")),
        (r#"{"method":"id"}"#, None),
        (r#"{"id":null}"#, Some("null")),
        (r#"{"method":"notify"}"#, None),
        (r#""id":"#, None),
        (r#"{"id":"#, Some("")),
        (r#"{"id":12"#, Some("12")),
    ];
    for (request, id) in cases {
        assert_eq!(json_rpc_id(request).as_deref(), id, "{request}");
    }
}

#[test]
fn requests_are_answered_by_method() {
    let answer = |method: &str| {
        let request = format!(r#"{{"jsonrpc":"2.0","id":3,"method":"{method}"}}"#);
        Json::parse(&mcp_response(&request).unwrap()).unwrap()
    };
    let initialized = answer("initialize");
    assert_eq!(
        initialized.get("result").unwrap().get("protocolVersion").unwrap().as_text(),
        Some("2026-07-28")
    );
    assert!(answer("tools/list").get("result").unwrap().get("tools").is_some());
    assert!(answer("tools/call").get("result").unwrap().get("content").is_some());
    assert_eq!(
        mcp_response(r#"{"id":3,"method":"resources/list"}"#).unwrap(),
        r#"{"jsonrpc":"2.0","id":3,"error":{"code":-32601,"message":"method not found"}}"#
    );
    assert_eq!(mcp_response(r#"{"method":"tools/list"}"#), None);
}

#[test]
fn messages_are_answered_for_their_own_members() {
    assert_eq!(
        mcp_response(
            r#"{"jsonrpc":"2.0","method":"notifications/progress","params":{"id":"x"}}"#
        ),
        None
    );
    let refused = r#"{"jsonrpc":"2.0","id":3,"error":{"code":-32601,"message":"method not found"}}"#;
    for request in [
        r#"{"id":3,"method":"resources/list","params":{"method":"initialize"}}"#,
        r#"{"id":3,"params":{"method":"tools/list"}}"#,
        r#"{"id":3,"method":"x","note":"\"method\":\"tools/call\""}"#,
        r#"{"id":3,"method":null}"#,
    ] {
        assert_eq!(mcp_response(request).as_deref(), Some(refused), "{request}");
    }
    let spaced = mcp_response(r#"{ "id" : 3 , "method" : "initialize" }"#).unwrap();
    assert_eq!(spaced, mcp_response(r#"{"id":3,"method":"initialize"}"#).unwrap());
    assert!(spaced.contains("protocolVersion"));
}

#[test]
fn http_requests_are_answered_by_method() {
    let status = |method: &str, body: &str| serve_http(method, body).map(|answer| answer.status);
    assert_eq!(status("GET", "").as_deref(), Some("405 Method Not Allowed"));
    assert_eq!(status("DELETE", "").as_deref(), Some("200 OK"));
    assert_eq!(status("POST", r#"{"method":"x"}"#).as_deref(), Some("202 Accepted"));
    assert_eq!(status("POST", r#"{"id":1}"#).as_deref(), Some("200 OK"));
    assert_eq!(status("PUT", ""), None);
    assert_eq!(
        serve_http("POST", r#"{"id":1}"#).unwrap().body,
        mcp_response(r#"{"id":1}"#).unwrap()
    );
}

#[test]
fn responses_tell_the_length_of_their_body() {
    assert_eq!(
        respond("200 OK", "é"),
        "HTTP/1.1 200 OK\r\nContent-Type: application/json\r\nContent-Length: 2\r\nCache-Control: no-store\r\nConnection: close\r\n\r\né"
    );
    assert_eq!(announcement("127.0.0.1:9"), r#"{"url":"http://127.0.0.1:9/mcp"}"#);
}

#[test]
fn request_heads_are_read_line_by_line() {
    assert_eq!(request_method("POST /mcp HTTP/1.1\r\n").as_deref(), Some("POST"));
    assert_eq!(request_method(" \t GET").as_deref(), Some("GET"));
    assert_eq!(request_method("\u{a0}GET x").as_deref(), Some("\u{a0}GET"));
    assert_eq!(request_method("\r\n"), None);
    let cases = [
        ("\r\n", HeadLine::End),
        ("", HeadLine::End),
        ("Content-Length: 12\r\n", HeadLine::ContentLength(12)),
        ("content-length:+7", HeadLine::ContentLength(7)),
        ("Content-Length: x\r\n", HeadLine::Malformed),
        ("Content-Length:\r\n", HeadLine::Malformed),
        ("Host: a:b\r\n", HeadLine::Other),
        ("Content-Length : 3\r\n", HeadLine::Other),
        ("nothing\r\n", HeadLine::Malformed),
        (" \r\n", HeadLine::Malformed),
    ];
    for (line, expected) in cases {
        assert_eq!(read_head_line(line), expected, "{line:?}");
    }
}

#[test]
fn controlled_servers_are_built_in_place() {
    let package = UnixPath::from_text("/pkg");
    assert_eq!(controlled_server_source(&package), UnixPath::from_text("/pkg/fixtures/mcp_server.rs"));
    let directory = UnixPath::from_text("/tmp/");
    assert_eq!(
        build_controlled_server(&directory, Compilation::Succeeded).unwrap(),
        UnixPath::from_text("/tmp/b10x-mcp-controlled-server")
    );
    assert_eq!(
        build_controlled_server(&directory, Compilation::NotStarted("gone".to_owned())).unwrap_err(),
        "starting rustc: gone"
    );
    assert_eq!(
        build_controlled_server(&directory, Compilation::Refused("E".to_owned())).unwrap_err(),
        "the controlled server did not compile: E"
    );
}
