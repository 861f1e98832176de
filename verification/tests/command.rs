use b10x_mcp::bearer::BearerSource;
use b10x_mcp::command::{
    authorization_status, authorized_line, connection_line, connection_names, http_bearer,
    init_registry, logged_out_line, oauth_target, open_line, rebind_authorization, registry_line,
    registry_path, select, tool_call, tool_call_parsed, tool_names, AuthArgs, AuthCommand,
    BearerNeed, Cli, Command, ConfigArgs, ConfigCommand, ConnectionName, ConnectionsArgs,
    ConnectionsCommand, InitEvent, InitStep, Purpose, Task, ToolsArgs, ToolsCommand,
    REGISTRY_TEMPLATE,
};
use b10x_mcp::connection::{Connection, Discovery, ListReply};
use b10x_mcp::error::ClientError;
use b10x_mcp::identity::ConnectionId;
use b10x_mcp::json::Json;
use b10x_mcp::limits::Limits;
use b10x_mcp::paths::{LocalPaths, UnixPath};
use b10x_mcp::registry::{HttpAuth, Registry};
use b10x_mcp::secret::SecretString;

fn id(name: &str) -> ConnectionId {
    ConnectionId::new(name).unwrap()
}

fn name(text: &str) -> ConnectionName {
    ConnectionName {
        connection: text.to_owned(),
    }
}

fn registry() -> Registry {
    Registry::parse(
        r#"
        [connections.stdio]
        transport = "stdio"
        program = "/p"
        cwd = "/"
        [connections.open]
        transport = "http"
        url = "https://o/"
        [connections.token]
        transport = "http"
        url = "https://t/"
        auth = { kind = "bearer", source = "environment", environment = "T" }
        [connections.flow]
        transport = "http"
        url = "https://f/"
        [connections.flow.auth]
        kind = "oauth"
        resource-url = "https://f/"
        redirect-uri = "http://127.0.0.1:1/"
        client_secret = { source = "environment", environment = "S" }
        "#,
    )
    .unwrap()
}

fn connection() -> Connection {
    let tool = |name: &str| Json::parse(&format!(r#"{{"name":"{name}","inputSchema":{{}}}}"#));
    let mut discovery = Discovery::start(Limits::default());
    let page = ListReply::Page {
        tools: vec![tool("b"), tool("a")],
        next_cursor: None,
    };
    discovery.receive(&id("c"), page).unwrap();
    discovery.prepare(id("c"), Some("2026-07-28")).unwrap()
}

#[test]
fn overrides_replace_the_conventional_registry() {
    let paths = LocalPaths {
        registry: UnixPath::from_text("/conventional"),
        state: UnixPath::from_text("/state"),
    };
    let cli = Cli {
        registry: Some(UnixPath::from_text("given")),
        command: Command::Config(ConfigArgs {
            command: ConfigCommand::Check,
        }),
    };
    assert_eq!(registry_path(cli.registry, &paths), UnixPath::from_text("given"));
    assert_eq!(registry_path(None, &paths), UnixPath::from_text("/conventional"));
}

#[test]
fn registries_are_created_once() {
    let path = UnixPath::from_text("/r");
    let step = init_registry(&path).unwrap();
    assert_eq!(step, InitStep::Probe);
    assert_eq!(
        init_registry(&UnixPath::from_text("r")).unwrap_err().to_string(),
        "configuration: registry path must be absolute"
    );
    assert_eq!(
        step.advance(InitEvent::Probed(true)).unwrap_err().to_string(),
        "configuration: registry already exists"
    );
    assert_eq!(
        step.advance(InitEvent::Failed("e".to_owned())).unwrap_err().to_string(),
        "configuration: checking registry: e"
    );
    let step = step.advance(InitEvent::Probed(false)).unwrap();
    assert_eq!(step, InitStep::CreateDirectory);
    assert_eq!(
        step.advance(InitEvent::Failed("e".to_owned())).unwrap_err().to_string(),
        "configuration: creating registry directory: e"
    );
    let step = step.advance(InitEvent::Finished).unwrap();
    assert_eq!(step, InitStep::Write);
    assert_eq!(
        step.advance(InitEvent::Failed("e".to_owned())).unwrap_err().to_string(),
        "configuration: writing registry: e"
    );
    assert_eq!(step.advance(InitEvent::Finished).unwrap(), InitStep::Done);
    assert_eq!(Registry::parse(REGISTRY_TEMPLATE).unwrap(), Registry::new());
    assert_eq!(Registry::load(Ok(REGISTRY_TEMPLATE.to_owned())).unwrap(), Registry::new());
}

#[test]
fn new_registries_are_one_empty_table_of_connections() {
    let document: serde_json::Value = toml::from_str(REGISTRY_TEMPLATE).unwrap();
    assert_eq!(document.to_string(), r#"{"connections":{}}"#);
}

#[test]
fn flows_are_selected_by_connection() {
    let registry = registry();
    let target = oauth_target(&registry, &name("flow")).unwrap();
    assert_eq!(target.id.as_str(), "flow");
    assert_eq!(target.config.redirect_uri, "http://127.0.0.1:1/");
    assert_eq!(
        target.client_secret,
        &Some(BearerSource::Environment { environment: "S".to_owned() })
    );
    let cases = [
        ("No", "configuration: connection id must match [a-z0-9_]{1,64}"),
        ("absent", "configuration: unknown MCP connection `absent`"),
        (
            "stdio",
            "configuration: connection `stdio` uses stdio and has no HTTP OAuth flow",
        ),
        ("open", "configuration: connection `open` is not configured for OAuth"),
        ("token", "configuration: connection `token` is not configured for OAuth"),
    ];
    for (text, expected) in cases {
        assert_eq!(oauth_target(&registry, &name(text)).unwrap_err().to_string(), expected);
    }
    assert!(name("a").connection_id().is_ok());
}

#[test]
fn bearers_come_from_the_declared_place() {
    let registry = registry();
    let auth = |text: &str| registry.connection(&id(text)).unwrap().http().unwrap().1;
    assert_eq!(http_bearer(auth("open")), BearerNeed::Absent);
    assert_eq!(
        http_bearer(auth("token")),
        BearerNeed::Source(&BearerSource::Environment { environment: "T".to_owned() })
    );
    match (http_bearer(auth("flow")), auth("flow")) {
        (BearerNeed::AccessToken(need), HttpAuth::OAuth { config, .. }) => assert_eq!(need, config),
        _ => panic!("no access token"),
    }
}

#[test]
fn authorization_is_rebound_to_the_connection() {
    let wanted = ClientError::AuthorizationRequired {
        connection: ConnectionId::oauth(),
        scope: Some("w".to_owned()),
    };
    assert_eq!(
        rebind_authorization(wanted, &id("c")).to_string(),
        "authorization required for `c` with scope `w`"
    );
    assert_eq!(
        rebind_authorization(ClientError::Cancelled, &id("c")),
        ClientError::Cancelled
    );
}

#[test]
fn statuses_never_show_the_token() {
    let token = Ok(SecretString::new("SENTINEL-NOT-A-REAL-TOKEN".to_owned()));
    assert_eq!(authorization_status(&id("c"), token).unwrap(), "authorized c");
    let required = Err(ClientError::AuthorizationRequired {
        connection: ConnectionId::oauth(),
        scope: None,
    });
    assert_eq!(authorization_status(&id("c"), required).unwrap(), "authorization-required c");
    let failed = Err(ClientError::Transport("x".to_owned()));
    assert_eq!(authorization_status(&id("c"), failed).unwrap_err().to_string(), "transport: x");
}

#[test]
fn outcomes_are_shown_as_lines() {
    let registry = registry();
    assert_eq!(
        registry_line(&registry).unwrap(),
        format!("ok 4 {}", registry.sha256().unwrap())
    );
    let connection = connection();
    assert_eq!(
        connection_line(&connection),
        format!("ok 2026-07-28 2 {}", connection.snapshot().sha256)
    );
    assert_eq!(connection_names(&registry), ["flow", "open", "stdio", "token"]);
    assert_eq!(tool_names(&connection), ["b", "a"]);
    assert_eq!(authorized_line(&id("c")), "authorized c");
    assert_eq!(logged_out_line(&id("c")), "logged-out c");
    assert_eq!(open_line("https://x/"), "open https://x/");
}

#[test]
fn arguments_are_parsed_before_anything_is_called() {
    let call = tool_call("t".to_owned(), r#"{"a":[1]}"#).unwrap();
    assert_eq!(call.name, "t");
    assert_eq!(call.arguments.encode(), br#"{"a":[1]}"#.to_vec());
    let reason = serde_json::from_str::<serde_json::Value>("{").unwrap_err().to_string();
    assert_eq!(
        tool_call("t".to_owned(), "{").unwrap_err().to_string(),
        format!("configuration: invalid arguments: {reason}")
    );
    assert!(tool_call_parsed("t".to_owned(), Ok(Json::Null)).is_ok());
    assert!(tool_call_parsed("t".to_owned(), Err("e".to_owned())).is_err());
}

#[test]
fn commands_select_their_task() {
    let registry = registry();
    let connections = |command: ConnectionsCommand| Command::Connections(ConnectionsArgs { command });
    let auth = |command: AuthCommand| Command::Auth(AuthArgs { command });
    let tools = |command: ToolsCommand| Command::Tools(ToolsArgs { command });
    let config = |command: ConfigCommand| Command::Config(ConfigArgs { command });
    assert_eq!(select(config(ConfigCommand::Init), &registry), Ok(Task::CreateRegistry));
    assert_eq!(select(config(ConfigCommand::Check), &registry), Ok(Task::ReportRegistry));
    assert_eq!(
        select(connections(ConnectionsCommand::List), &registry),
        Ok(Task::ListConnections)
    );
    let open = registry.connection(&id("open")).unwrap();
    assert_eq!(
        select(connections(ConnectionsCommand::Show(name("open"))), &registry),
        Ok(Task::ShowConnection(open))
    );
    let connect = |purpose: Purpose| Task::Connect {
        id: id("open"),
        config: open,
        purpose,
    };
    assert_eq!(
        select(connections(ConnectionsCommand::Check(name("open"))), &registry),
        Ok(connect(Purpose::Report))
    );
    assert_eq!(
        select(tools(ToolsCommand::List(name("open"))), &registry),
        Ok(connect(Purpose::ListTools))
    );
    assert_eq!(
        select(tools(ToolsCommand::Snapshot(name("open"))), &registry),
        Ok(connect(Purpose::PrintSnapshot))
    );
    let call = |connection: &str, arguments: &str| {
        tools(ToolsCommand::Call {
            connection: connection.to_owned(),
            tool: "t".to_owned(),
            arguments: arguments.to_owned(),
        })
    };
    assert_eq!(
        select(call("open", "{}"), &registry),
        Ok(connect(Purpose::Call(tool_call("t".to_owned(), "{}").unwrap())))
    );
    let refusal = |command: Command| select(command, &registry).unwrap_err().to_string();
    assert!(refusal(call("No", "{")).starts_with("configuration: invalid arguments: "));
    assert_eq!(
        refusal(call("No", "{}")),
        "configuration: connection id must match [a-z0-9_]{1,64}"
    );
    assert_eq!(
        refusal(tools(ToolsCommand::List(name("absent")))),
        "configuration: unknown MCP connection `absent`"
    );
    assert_eq!(
        refusal(connections(ConnectionsCommand::Show(name("absent")))),
        "configuration: unknown MCP connection `absent`"
    );
    let target = || oauth_target(&registry, &name("flow")).unwrap();
    assert_eq!(
        select(auth(AuthCommand::Login(name("flow"))), &registry),
        Ok(Task::Login(target()))
    );
    assert_eq!(
        select(auth(AuthCommand::Status(name("flow"))), &registry),
        Ok(Task::Status(target()))
    );
    assert_eq!(
        select(auth(AuthCommand::Logout(name("flow"))), &registry),
        Ok(Task::Logout(target()))
    );
    assert_eq!(
        refusal(auth(AuthCommand::Status(name("open")))),
        "configuration: connection `open` is not configured for OAuth"
    );
}
