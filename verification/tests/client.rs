use b10x_mcp::client::{
    map_service_error, negotiation_error, plan_http, plan_launch, plan_parsed, validate_env_name,
    validate_launch, Cause, FailureClass, NegotiationFailure,
};
use b10x_mcp::connection::{
    cleanup_timeout, close, CallResponse, Cleanup, Connection, Discovery, ListReply,
};
use b10x_mcp::controlled::{mcp_response, serve_http};
use b10x_mcp::endpoint::{admit_http_url, validate_http_url, HostAddress, UrlParts};
use b10x_mcp::error::ClientError;
use b10x_mcp::headers::parse_headers;
use b10x_mcp::identity::ConnectionId;
use b10x_mcp::json::Json;
use b10x_mcp::limits::{Limits, TimeSpan};
use b10x_mcp::secret::SecretString;
use b10x_mcp::text_map::TextMap;
use b10x_mcp::tools::ToolCall;
use b10x_mcp::transport::{HttpTransportConfig, StdioTransportConfig};

fn json(text: &str) -> Json {
    Json::parse(text).unwrap()
}

fn id(name: &str) -> ConnectionId {
    ConnectionId::new(name).unwrap()
}

fn headers(pairs: &[(&str, &str)]) -> TextMap<String> {
    let mut map = TextMap::new();
    for (name, value) in pairs {
        map.insert((*name).to_owned(), (*value).to_owned());
    }
    map
}

fn member<'a>(value: &'a Json, path: &[&str]) -> &'a Json {
    let mut current = value;
    for key in path {
        current = current.get(key).unwrap();
    }
    current
}

fn item(value: &Json, i: usize) -> &Json {
    match value {
        Json::Array(items) => &items[i],
        _ => panic!("no array"),
    }
}

fn page(result: &Json) -> ListReply {
    let tools = match result.get("tools") {
        Some(Json::Array(tools)) => tools.iter().map(|tool| Ok(tool.copy())).collect(),
        _ => panic!("no tools"),
    };
    ListReply::Page {
        tools,
        next_cursor: None,
    }
}

/// Negotiates with, freezes and calls a controlled server through `exchange`.
fn drive(name: &str, exchange: fn(&str) -> Json) -> Connection {
    let initialized = exchange(r#"{"jsonrpc":"2.0","id":0,"method":"initialize"}"#);
    let version = member(&initialized, &["result", "protocolVersion"]).as_text().unwrap();
    let listed = exchange(r#"{"jsonrpc":"2.0","id":1,"method":"tools/list"}"#);
    let mut discovery = Discovery::start(Limits::default());
    let id = id(name);
    let next = discovery.receive(&id, page(listed.get("result").unwrap())).unwrap();
    assert_eq!(next, None);
    discovery.prepare(id, Some(version)).unwrap()
}

fn over_http(request: &str) -> Json {
    let answer = serve_http("POST", request).unwrap();
    assert_eq!(answer.status, "200 OK");
    json(&answer.body)
}

fn over_stdio(request: &str) -> Json {
    json(&mcp_response(request).unwrap())
}

fn issue_call(name: &str) -> ToolCall {
    ToolCall {
        name: name.to_owned(),
        arguments: json(r#"{"id":"ISSUE-7"}"#),
    }
}

#[test]
fn a_controlled_http_server_is_negotiated_frozen_and_called() {
    let connection = drive("controlled_http", over_http);
    let snapshot = connection.snapshot();
    assert_eq!(snapshot.protocol_version, "2026-07-28");
    assert_eq!(
        snapshot.tools.iter().map(|tool| tool.name.as_str()).collect::<Vec<_>>(),
        ["read_issue", "close_issue"],
        "the frozen snapshot keeps the server's own order"
    );
    assert_eq!(
        member(&snapshot.tools[0].raw, &["annotations", "readOnlyHint"]),
        &Json::Bool(false)
    );
    let plan = connection
        .call(&issue_call("close_issue"), Some(TimeSpan::from_secs(10)))
        .unwrap();
    assert_eq!(plan.timeout, TimeSpan::from_secs(10));
    assert_eq!(plan.arguments, json(r#"{"id":"ISSUE-7"}"#));
    let answer = over_http(r#"{"jsonrpc":"2.0","id":2,"method":"tools/call"}"#);
    let response = CallResponse::Complete(Ok(answer.get("result").unwrap().copy()));
    let result = connection.settle(&plan.name, response).unwrap();
    assert!(!result.is_error);
    assert_eq!(
        item(result.raw.get("content").unwrap(), 0).get("text").unwrap().as_text(),
        Some("controlled issue is open")
    );
}

#[test]
fn a_controlled_stdio_server_is_negotiated_frozen_and_called() {
    let connection = drive("controlled_stdio", over_stdio);
    assert_eq!(connection.id().as_str(), "controlled_stdio");
    let snapshot = connection.snapshot();
    assert_eq!(snapshot.protocol_version, "2026-07-28");
    assert_eq!(
        snapshot.tools.iter().map(|tool| tool.name.as_str()).collect::<Vec<_>>(),
        ["read_issue", "close_issue"],
        "the frozen snapshot keeps the server's own order"
    );
    assert_eq!(
        member(&snapshot.tools[1].raw, &["annotations", "readOnlyHint"]),
        &Json::Bool(true)
    );
    let plan = connection
        .call(&issue_call("read_issue"), Some(TimeSpan::from_secs(10)))
        .unwrap();
    let answer = over_stdio(r#"{"jsonrpc":"2.0","id":2,"method":"tools/call"}"#);
    let response = CallResponse::Complete(Ok(answer.get("result").unwrap().copy()));
    let result = connection.settle(&plan.name, response).unwrap();
    assert!(!result.is_error);
    assert_eq!(
        item(result.raw.get("content").unwrap(), 0).get("text").unwrap().as_text(),
        Some("controlled issue is open")
    );
    let refusal = connection
        .call(
            &ToolCall {
                name: "delete_everything".to_owned(),
                arguments: json("{}"),
            },
            Some(TimeSpan::from_secs(10)),
        )
        .unwrap_err();
    assert!(refusal.to_string().contains("delete_everything"));
    assert_eq!(
        refusal.to_string(),
        "protocol: tool `delete_everything` is absent from connection `controlled_stdio`'s frozen snapshot"
    );
    assert!(close(Cleanup::Done).is_ok());
}

#[test]
fn cleartext_off_the_loopback_is_refused_before_a_socket_is_opened() {
    let config = HttpTransportConfig {
        url: "http://mcp.example.com/mcp".to_owned(),
        headers: TextMap::new(),
    };
    let Err(error) = plan_http(&config, None, Limits::default()) else {
        panic!("Streamable HTTP requires HTTPS off the loopback");
    };
    assert!(
        error.to_string().contains("HTTPS"),
        "the refusal says why: {}",
        error.to_string()
    );
}

#[test]
fn a_relative_program_is_refused_before_anything_is_spawned() {
    let config = StdioTransportConfig {
        program: "mcp-server".to_owned(),
        args: Vec::new(),
        cwd: "/".to_owned(),
        inherit_env: Vec::new(),
    };
    let Err(error) = validate_launch(&config) else {
        panic!("a PATH lookup is not a transport this crate performs");
    };
    assert!(
        error.to_string().contains("absolute"),
        "the refusal says why: {}",
        error.to_string()
    );
}

#[test]
fn remote_cleartext_is_refused_but_loopback_is_allowed() {
    assert!(validate_http_url("http://127.0.0.1:8080/mcp").is_ok());
    assert!(validate_http_url("http://example.com/mcp").is_err());
    assert!(validate_http_url("https://example.com/mcp").is_ok());
}

#[test]
fn authorization_cannot_hide_in_static_headers() {
    let headers = headers(&[("Authorization", "SENTINEL-NOT-A-REAL-TOKEN")]);
    assert!(parse_headers(&headers).is_err());
}

#[test]
fn endpoints_are_refused_by_reason() {
    let secure = "configuration: Streamable HTTP requires HTTPS except on loopback";
    let bare = "configuration: MCP URL cannot contain userinfo or a fragment";
    let cases = [
        ("http://localhost/mcp", ""),
        ("http://127.9.9.9/mcp", ""),
        ("http://[::1]:9/mcp", ""),
        ("http://[::2]:9/mcp", secure),
        ("http://128.0.0.1/mcp", secure),
        ("http://localhost.example/mcp", secure),
        ("ftp://localhost/mcp", secure),
        ("https://user@example.com/mcp", bare),
        ("https://:word@example.com/mcp", bare),
        ("https://example.com/mcp#part", bare),
        ("HTTPS://EXAMPLE.COM", ""),
        ("mcp", "configuration: invalid MCP URL: relative URL without a base"),
    ];
    for (url, expected) in cases {
        match validate_http_url(url) {
            Ok(()) => assert_eq!(expected, "", "{url}"),
            Err(error) => assert_eq!(error.to_string(), expected, "{url}"),
        }
    }
}

#[test]
fn parsed_endpoints_are_judged_by_their_parts() {
    let parts = |scheme: &str, address: Option<HostAddress>| UrlParts {
        scheme: scheme.to_owned(),
        host: Some("h".to_owned()),
        address,
        port: None,
        username: String::new(),
        password: None,
        fragment: None,
    };
    assert!(admit_http_url(Ok(parts("https", None))).is_ok());
    assert!(admit_http_url(Ok(parts("http", None))).is_err());
    assert!(admit_http_url(Ok(parts("http", Some(HostAddress::V4(0x7f00_0001))))).is_ok());
    assert!(admit_http_url(Ok(parts("http", Some(HostAddress::V4(0x8000_0000))))).is_err());
    assert!(admit_http_url(Ok(parts("http", Some(HostAddress::V6(1))))).is_ok());
    assert!(admit_http_url(Err("why".to_owned())).is_err());
}

#[test]
fn headers_are_sent_in_lower_case() {
    let sent = parse_headers(&headers(&[("X-One", "a\tb"), ("two", "é"), ("empty", "")])).unwrap();
    assert_eq!(sent.len(), 3);
    assert_eq!(sent.get("x-one").map(String::as_str), Some("a\tb"));
    assert_eq!(sent.get("two").map(String::as_str), Some("é"));
    assert_eq!(sent.get("empty").map(String::as_str), Some(""));
    let merged = parse_headers(&headers(&[("A", "upper"), ("a", "lower")])).unwrap();
    assert_eq!(merged.len(), 1);
    assert_eq!(merged.get("a").map(String::as_str), Some("lower"));
}

#[test]
fn header_refusals_name_the_header() {
    let cases = [
        ("bad name", "v", "configuration: invalid HTTP header `bad name`"),
        ("", "v", "configuration: invalid HTTP header ``"),
        ("\u{e9}", "v", "configuration: invalid HTTP header `\u{e9}`"),
        ("X-Bad", "a\nb", "configuration: invalid value for HTTP header `x-bad`"),
        ("X-Bad", "\u{7f}", "configuration: invalid value for HTTP header `x-bad`"),
        (
            "aUTHORIZATION",
            "\n",
            "configuration: authorization is a credential and cannot appear in connection headers",
        ),
    ];
    for (name, value, expected) in cases {
        assert_eq!(
            parse_headers(&headers(&[(name, value)])).unwrap_err().to_string(),
            expected
        );
    }
}

#[test]
fn header_names_and_values_are_those_of_the_outside_crate() {
    for c in (0..0x250_u32).filter_map(char::from_u32) {
        let text = format!("a{c}");
        let one = [(text.as_str(), "v")];
        let two = [("n", text.as_str())];
        assert_eq!(
            parse_headers(&headers(&one)).is_ok(),
            http::HeaderName::try_from(text.as_str()).is_ok(),
            "{c:?}"
        );
        assert_eq!(
            parse_headers(&headers(&two)).is_ok(),
            http::HeaderValue::try_from(text.as_str()).is_ok(),
            "{c:?}"
        );
    }
}

#[test]
fn http_plans_carry_the_declaration_and_the_bearer() {
    let config = HttpTransportConfig {
        url: "https://example.com/mcp".to_owned(),
        headers: headers(&[("X-A", "1")]),
    };
    let bearer = SecretString::new("token".to_owned());
    let limits = Limits {
        max_frame_bytes: 77,
        ..Limits::default()
    };
    let plan = plan_http(&config, Some(&bearer), limits).unwrap();
    assert_eq!(plan.url, "https://example.com/mcp");
    assert_eq!(plan.headers.get("x-a").map(String::as_str), Some("1"));
    assert_eq!(plan.max_sse_event_size, 77);
    assert_eq!(plan.max_concurrent_requests, 16);
    assert_eq!(plan.auth_header.as_ref().map(SecretString::expose), Some("token"));
    let plain = plan_parsed(
        &config,
        Ok(UrlParts {
            scheme: "https".to_owned(),
            host: None,
            address: None,
            port: None,
            username: String::new(),
            password: None,
            fragment: None,
        }),
        None,
        limits,
    )
    .unwrap();
    assert!(plain.auth_header.is_none());
}

#[test]
fn launches_are_refused_by_reason() {
    let config = |program: &str, cwd: &str, names: &[&str]| StdioTransportConfig {
        program: program.to_owned(),
        args: Vec::new(),
        cwd: cwd.to_owned(),
        inherit_env: names.iter().map(|name| (*name).to_owned()).collect(),
    };
    assert!(validate_launch(&config("/bin/s", "/", &["PATH", "A_1"])).is_ok());
    assert_eq!(
        validate_launch(&config("/bin/s", "", &[])).unwrap_err().to_string(),
        "configuration: stdio cwd must be an absolute path"
    );
    assert_eq!(
        validate_launch(&config("s", "", &["x"])).unwrap_err().to_string(),
        "configuration: stdio program must be an absolute path"
    );
    assert_eq!(
        validate_launch(&config("/s", "/", &["OK", "no", ""])).unwrap_err().to_string(),
        "configuration: invalid inherited environment name `no`"
    );
    assert!(validate_env_name("").is_err());
    assert!(validate_env_name("A-B").is_err());
}

#[test]
fn children_inherit_the_declared_variables_that_are_set() {
    let config = StdioTransportConfig {
        program: "/bin/s".to_owned(),
        args: vec!["-x".to_owned()],
        cwd: "/w".to_owned(),
        inherit_env: vec!["A".to_owned(), "B".to_owned(), "C".to_owned()],
    };
    let values = vec![Some(b"1".to_vec()), None, Some(vec![0xff])];
    let plan = plan_launch(&config, &values).unwrap();
    assert_eq!(plan.program, "/bin/s");
    assert_eq!(plan.args, ["-x"]);
    assert_eq!(plan.cwd, "/w");
    assert_eq!(
        plan.environment,
        [("A".to_owned(), b"1".to_vec()), ("C".to_owned(), vec![0xff])]
    );
    assert_eq!(plan_launch(&config, &Vec::new()).unwrap().environment, []);
    let relative = StdioTransportConfig {
        program: "s".to_owned(),
        ..config
    };
    assert!(plan_launch(&relative, &values).is_err());
}

#[test]
fn negotiation_failures_are_reported_by_class() {
    let id = id("c");
    assert_eq!(
        negotiation_error(&id, NegotiationFailure::TimedOut).to_string(),
        "transport: MCP lifecycle negotiation timed out"
    );
    assert_eq!(
        negotiation_error(&id, NegotiationFailure::Other).to_string(),
        "transport: MCP lifecycle negotiation failed"
    );
    let challenged = NegotiationFailure::AuthorizationRequired {
        challenge: Some("Bearer realm=\"r\", scope=\"a b\"".to_owned()),
    };
    assert_eq!(
        negotiation_error(&id, challenged).to_string(),
        "authorization required for `c` with scope `a b`"
    );
    let bare = NegotiationFailure::AuthorizationRequired { challenge: None };
    assert_eq!(negotiation_error(&id, bare).to_string(), "authorization required for `c`");
}

#[test]
fn request_failures_are_reported_by_cause_and_class() {
    let id = id("c");
    let texts = [
        (FailureClass::Cancelled, "transport: request cancelled"),
        (FailureClass::TimedOut, "transport: request timed out"),
        (FailureClass::TransportClosed, "transport: transport closed"),
        (FailureClass::Other, "transport: MCP request failed"),
    ];
    for (class, text) in texts {
        assert_eq!(map_service_error(&vec![Cause::Other], class, &id).to_string(), text);
        let unnamed = vec![Cause::Other, Cause::InsufficientScope { required_scope: None }];
        assert_eq!(
            map_service_error(&unnamed, class, &id),
            ClientError::AuthorizationRequired { connection: id.clone(), scope: None }
        );
        assert_eq!(map_service_error(&Vec::new(), class, &id).to_string(), text);
    }
    let scoped = vec![
        Cause::Other,
        Cause::InsufficientScope { required_scope: Some("w".to_owned()) },
        Cause::AuthorizationRequired,
    ];
    assert_eq!(
        map_service_error(&scoped, FailureClass::Other, &id).to_string(),
        "authorization required for `c` with scope `w`"
    );
    let upgraded = vec![
        Cause::InsufficientScope { required_scope: None },
        Cause::InsufficientScope { required_scope: Some("w".to_owned()) },
    ];
    assert_eq!(
        map_service_error(&upgraded, FailureClass::Other, &id).to_string(),
        "authorization required for `c` with scope `w`"
    );
    let required = vec![
        Cause::InsufficientScope { required_scope: None },
        Cause::AuthorizationRequired,
        Cause::InsufficientScope { required_scope: Some("w".to_owned()) },
    ];
    assert_eq!(
        map_service_error(&required, FailureClass::Other, &id).to_string(),
        "authorization required for `c`"
    );
}

fn tool(name: &str) -> Result<Json, String> {
    Ok(json(&format!(r#"{{"name":"{name}","inputSchema":{{}}}}"#)))
}

#[test]
fn listings_keep_the_order_of_their_pages() {
    let id = id("c");
    let mut discovery = Discovery::start(Limits::default());
    let first = ListReply::Page {
        tools: vec![tool("b"), tool("a")],
        next_cursor: Some("more".to_owned()),
    };
    assert_eq!(discovery.receive(&id, first).unwrap().as_deref(), Some("more"));
    let second = ListReply::Page {
        tools: vec![tool("0")],
        next_cursor: None,
    };
    assert_eq!(discovery.receive(&id, second).unwrap(), None);
    let connection = discovery.prepare(id, None).unwrap();
    let names: Vec<&str> = connection.snapshot().tools.iter().map(|tool| tool.name.as_str()).collect();
    assert_eq!(names, ["b", "a", "0"]);
    assert_eq!(connection.snapshot().protocol_version, "2025-11-25");
}

#[test]
fn listings_stop_at_their_page_bound() {
    let id = id("c");
    let limits = Limits {
        max_pages: 1,
        ..Limits::default()
    };
    let empty = || ListReply::Page {
        tools: Vec::new(),
        next_cursor: Some("again".to_owned()),
    };
    let mut discovery = Discovery::start(limits);
    assert!(discovery.receive(&id, empty()).is_ok());
    assert_eq!(
        discovery.receive(&id, empty()).unwrap_err().to_string(),
        "bound `max_pages`: 2 exceeds 1"
    );
}

#[test]
fn listings_fail_by_class() {
    let id = id("c");
    let mut discovery = Discovery::start(Limits::default());
    assert_eq!(
        discovery.receive(&id, ListReply::TimedOut).unwrap_err().to_string(),
        "transport: tools/list timed out"
    );
    let failed = ListReply::Failed {
        causes: vec![Cause::AuthorizationRequired],
        class: FailureClass::Other,
    };
    assert_eq!(
        discovery.receive(&id, failed).unwrap_err().to_string(),
        "authorization required for `c`"
    );
}

fn frozen(tools: Vec<Result<Json, String>>, limits: Limits) -> Result<Connection, ClientError> {
    let id = id("c");
    let mut discovery = Discovery::start(limits);
    discovery.receive(&id, ListReply::Page { tools, next_cursor: None })?;
    discovery.prepare(id, Some("v"))
}

#[test]
fn preparations_refuse_the_first_fault() {
    let one = Limits {
        max_tools: 1,
        ..Limits::default()
    };
    assert_eq!(
        frozen(vec![Err("x".to_owned()), Err("y".to_owned())], one).unwrap_err().to_string(),
        "bound `max_tools`: 2 exceeds 1"
    );
    assert_eq!(
        frozen(vec![tool("a"), Err("x".to_owned()), Ok(json("1"))], Limits::default())
            .unwrap_err()
            .to_string(),
        "protocol: x"
    );
    assert_eq!(
        frozen(vec![tool("a"), Ok(json("1")), tool("a")], Limits::default()).unwrap_err().to_string(),
        "protocol: tool descriptor is not a JSON object"
    );
    assert_eq!(
        frozen(vec![tool("a"), tool("a")], Limits::default()).unwrap_err().to_string(),
        "protocol: server listed duplicate tool `a`"
    );
}

#[test]
fn calls_wait_for_the_shorter_of_deadline_and_limit() {
    let connection = frozen(vec![tool("a")], Limits::default()).unwrap();
    let call = ToolCall {
        name: "a".to_owned(),
        arguments: json("{}"),
    };
    let wait = |deadline: Option<TimeSpan>| connection.call(&call, deadline).unwrap().timeout;
    assert_eq!(wait(None), TimeSpan::from_secs(30));
    assert_eq!(wait(Some(TimeSpan::from_secs(31))), TimeSpan::from_secs(30));
    assert_eq!(wait(Some(TimeSpan { secs: 29, nanos: 1 })), TimeSpan { secs: 29, nanos: 1 });
    assert!(connection.call_sized(&call, 65_537, None).is_err());
    assert!(connection.call_sized(&call, 65_536, None).is_ok());
}

#[test]
fn responses_are_settled_by_kind() {
    let limits = Limits {
        max_result_bytes: 10,
        ..Limits::default()
    };
    let connection = frozen(vec![tool("a")], limits).unwrap();
    let settle = |response: CallResponse| match connection.settle("a", response) {
        Ok(_) => "ok".to_owned(),
        Err(error) => error.to_string(),
    };
    assert_eq!(settle(CallResponse::TimedOut), "transport: tool `a` timed out");
    assert_eq!(
        settle(CallResponse::Failed { causes: Vec::new(), class: FailureClass::TransportClosed }),
        "transport: transport closed"
    );
    assert_eq!(settle(CallResponse::Complete(Ok(json("{}")))), "ok");
    assert_eq!(settle(CallResponse::Complete(Err("why".to_owned()))), "protocol: why");
    assert_eq!(
        settle(CallResponse::Complete(Ok(json("\"123456789\"")))),
        "bound `max_result_bytes`: 11 exceeds 10"
    );
    assert_eq!(
        settle(CallResponse::InputRequired(Ok(json("{}")))),
        "unsupported MCP feature `input-required`"
    );
    assert_eq!(settle(CallResponse::InputRequired(Err("e".to_owned()))), "protocol: e");
    assert_eq!(settle(CallResponse::Task(Ok(json("{}")))), "unsupported MCP feature `tasks`");
    assert_eq!(settle(CallResponse::Task(Err("e".to_owned()))), "protocol: e");
    assert_eq!(
        settle(CallResponse::Unknown),
        "unsupported MCP feature `unknown-tools-call-response`"
    );
}

#[test]
fn cleanups_are_bounded_and_reported() {
    assert_eq!(cleanup_timeout(), TimeSpan::from_secs(3));
    assert_eq!(
        close(Cleanup::TimedOut).unwrap_err().to_string(),
        "transport: client cleanup timed out"
    );
    assert_eq!(
        close(Cleanup::Failed).unwrap_err().to_string(),
        "transport: client cleanup task failed"
    );
}
