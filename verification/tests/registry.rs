use b10x_mcp::bearer::{
    resolve_file, resolve_variable, select_secret, validate_source, BearerSource, SourceRead,
};
use b10x_mcp::client::validate_launch;
use b10x_mcp::identity::ConnectionId;
use b10x_mcp::json::Json;
use b10x_mcp::oauth::OAuthConfig;
use b10x_mcp::registry::{ConnectionConfig, HttpAuth, Registry};
use b10x_mcp::schema::{get_declaration, get_document};
use b10x_mcp::text_map::TextMap;
use b10x_mcp::transport::{HttpTransportConfig, StdioTransportConfig};

const MINIMAL: &str = r#"
[connections.local_files]
transport = "stdio"
program = "/absolute/path/to/mcp-server"
args = ["--stdio"]
cwd = "/absolute/working/directory"
inherit-env = []

[connections.remote]
transport = "http"
url = "https://mcp.example.com/mcp"

[connections.remote.auth]
kind = "oauth"
resource-url = "https://mcp.example.com/mcp"
redirect-uri = "http://127.0.0.1:38123/callback"
client-name = "b10x MCP client"
scopes = []
application-type = "native"
"#;

fn digest(bytes: &[u8]) -> String {
    let mut out = String::new();
    for byte in <sha2::Sha256 as sha2::Digest>::digest(bytes) {
        out.push_str(&format!("{byte:02x}"));
    }
    out
}

fn refusal(document: &str) -> String {
    Registry::parse(document).unwrap_err().to_string()
}

fn id(name: &str) -> ConnectionId {
    ConnectionId::new(name).unwrap()
}

#[test]
fn inline_bearer_values_are_not_in_the_schema() {
    let error = Registry::parse(
        r#"
                [connections.remote]
                transport = "http"
                url = "https://example.test/mcp"

                [connections.remote.auth]
                kind = "bearer"
                token = "SENTINEL-NOT-A-REAL-TOKEN"
            "#,
    )
    .unwrap_err();
    assert!(!error.to_string().contains("SENTINEL"));
}

#[test]
fn inline_values_beside_a_source_are_refused_by_field() {
    let document = r#"
        [connections.remote]
        transport = "http"
        url = "https://example.test/mcp"
        [connections.remote.auth]
        kind = "bearer"
        source = "environment"
        environment = "TOKEN"
        token = "SENTINEL-NOT-A-REAL-TOKEN"
        another = "SENTINEL-NOT-A-REAL-TOKEN"
    "#;
    assert_eq!(
        refusal(document),
        "configuration: invalid registry: connection `remote`: unknown field `another`"
    );
}

#[test]
fn the_minimal_registry_is_read() {
    let registry = Registry::parse(MINIMAL).unwrap();
    assert_eq!(registry.connections.len(), 2);
    let local = registry.connection(&id("local_files")).unwrap();
    assert!(local.http().is_none());
    let stdio = local.stdio().unwrap();
    assert_eq!(stdio.program, "/absolute/path/to/mcp-server");
    assert_eq!(stdio.args, ["--stdio"]);
    assert_eq!(stdio.cwd, "/absolute/working/directory");
    assert!(stdio.inherit_env.is_empty());
    assert!(validate_launch(stdio).is_ok());
    let remote = registry.connection(&id("remote")).unwrap();
    assert!(remote.stdio().is_none());
    let (http, auth) = remote.http().unwrap();
    assert_eq!(http.url, "https://mcp.example.com/mcp");
    assert_eq!(http.headers.len(), 0);
    assert_eq!(
        auth,
        &HttpAuth::OAuth {
            config: OAuthConfig {
                resource_url: "https://mcp.example.com/mcp".to_owned(),
                redirect_uri: "http://127.0.0.1:38123/callback".to_owned(),
                client_name: "b10x MCP client".to_owned(),
                client_id: None,
                client_metadata_url: None,
                scopes: Vec::new(),
                application_type: "native".to_owned(),
            },
            client_secret: None,
        }
    );
    assert_eq!(
        registry.connection(&id("absent")).unwrap_err().to_string(),
        "configuration: unknown MCP connection `absent`"
    );
}

#[test]
fn every_declared_field_is_read() {
    let registry = Registry::parse(
        r#"
        [connections.a]
        transport = "http"
        url = "https://a/"
        headers = { X-A = "1", b = "2" }
        auth = { kind = "bearer", source = "json-file", path = "/k", pointer = "/p" }
        [connections.b]
        transport = "http"
        url = "https://b/"
        auth = { kind = "none" }
        [connections.c]
        transport = "http"
        url = "https://c/"
        [connections.c.auth]
        kind = "oauth"
        resource-url = "r"
        redirect-uri = "u"
        client-id = "i"
        client-metadata-url = "m"
        scopes = ["x", "y"]
        client_secret = { source = "environment", environment = "E" }
        [connections.d]
        transport = "http"
        url = "https://d/"
        auth = { kind = "bearer", source = "environment", environment = "T" }
        "#,
    )
    .unwrap();
    let (http, auth) = registry.connection(&id("a")).unwrap().http().unwrap();
    assert_eq!(http.headers.get("X-A").map(String::as_str), Some("1"));
    assert_eq!(http.headers.get("b").map(String::as_str), Some("2"));
    assert_eq!(
        auth,
        &HttpAuth::Bearer {
            source: BearerSource::JsonFile { path: "/k".to_owned(), pointer: "/p".to_owned() }
        }
    );
    assert_eq!(registry.connection(&id("b")).unwrap().http().unwrap().1, &HttpAuth::Absent);
    match registry.connection(&id("c")).unwrap().http().unwrap().1 {
        HttpAuth::OAuth { config, client_secret } => {
            assert_eq!(config.client_name, "b10x MCP client");
            assert_eq!(config.application_type, "native");
            assert_eq!(config.client_id.as_deref(), Some("i"));
            assert_eq!(config.client_metadata_url.as_deref(), Some("m"));
            assert_eq!(config.scopes, ["x", "y"]);
            assert_eq!(
                client_secret,
                &Some(BearerSource::Environment { environment: "E".to_owned() })
            );
        }
        _ => panic!("no OAuth"),
    }
    assert_eq!(
        registry.connection(&id("d")).unwrap().http().unwrap().1,
        &HttpAuth::Bearer { source: BearerSource::Environment { environment: "T".to_owned() } }
    );
    assert_eq!(HttpAuth::default(), HttpAuth::Absent);
    assert_eq!(Registry::parse("").unwrap(), Registry::new());
    assert_eq!(Registry::parse("[connections]\n").unwrap(), Registry::new());
}

#[test]
fn documents_outside_the_schema_are_refused_by_reason() {
    let connection = |body: &str| format!("[connections.c]\n{body}\n");
    let auth = |body: &str| {
        connection(&format!("transport = \"http\"\nurl = \"u\"\nauth = {{ {body} }}"))
    };
    let inside = "configuration: invalid registry: connection `c`: ";
    let cases = [
        (connection(""), "missing field `transport`"),
        (connection("transport = 1"), "field `transport` is not a string"),
        (connection("transport = \"pipe\""), "field `transport` is not a known transport"),
        (connection("transport = \"http\""), "missing field `url`"),
        (connection("transport = \"http\"\nurl = \"u\"\nargs = []"), "unknown field `args`"),
        (connection("transport = \"http\"\nurl = true"), "field `url` is not a string"),
        (
            connection("transport = \"http\"\nurl = \"u\"\nheaders = { a = 1 }"),
            "field `headers` is not a table of strings",
        ),
        (
            connection("transport = \"http\"\nurl = \"u\"\nheaders = []"),
            "field `headers` is not a table of strings",
        ),
        (connection("transport = \"http\"\nurl = \"u\"\nauth = 1"), "field `auth` is not a table"),
        (connection("transport = \"stdio\"\nprogram = \"/p\""), "missing field `cwd`"),
        (
            connection("transport = \"stdio\"\nprogram = \"/p\"\ncwd = \"/\"\nargs = [1]"),
            "field `args` is not a list of strings",
        ),
        (
            connection("transport = \"stdio\"\nprogram = \"/p\"\ncwd = \"/\"\ninherit-env = \"A\""),
            "field `inherit-env` is not a list of strings",
        ),
        (auth(""), "missing field `kind`"),
        (auth("kind = \"magic\""), "field `kind` is not a known kind"),
        (auth("kind = \"none\", x = 1"), "unknown field `x`"),
        (auth("kind = \"bearer\""), "missing field `source`"),
        (auth("kind = \"bearer\", source = \"inline\""), "field `source` is not a known source"),
        (auth("kind = \"bearer\", source = \"environment\""), "missing field `environment`"),
        (
            auth("kind = \"bearer\", source = \"json-file\", path = \"/\""),
            "missing field `pointer`",
        ),
        (auth("kind = \"oauth\""), "missing field `resource-url`"),
        (auth("kind = \"oauth\", resource-url = \"r\""), "missing field `redirect-uri`"),
        (
            auth("kind = \"oauth\", resource-url = \"r\", redirect-uri = \"u\", client_secret = 1"),
            "field `client_secret` is not a table",
        ),
        (
            auth("kind = \"oauth\", resource-url = \"r\", redirect-uri = \"u\", client_secret = { kind = \"x\", source = \"environment\" }"),
            "unknown field `kind`",
        ),
    ];
    for (document, expected) in cases {
        assert_eq!(refusal(&document), format!("{inside}{expected}"), "{document}");
    }
    assert_eq!(
        refusal("other = 1"),
        "configuration: invalid registry: unknown field `other`"
    );
    assert_eq!(
        refusal("connections = 1"),
        "configuration: invalid registry: field `connections` is not a table"
    );
    assert!(refusal("connections = ").starts_with("configuration: invalid registry: "));
    assert_eq!(
        refusal("[connections.b]\n[connections.a]\ntransport = 3"),
        "configuration: invalid registry: connection `a`: field `transport` is not a string"
    );
}

#[test]
fn parsed_documents_are_read_without_the_outside_parser() {
    let tree = |text: &str| Json::parse(text).unwrap();
    assert!(get_document(&tree(r#"{"connections":{}}"#)).is_ok());
    assert_eq!(get_document(&tree("[]")).unwrap_err(), "field `registry` is not a table");
    assert!(get_declaration(&tree(r#"{"transport":"http","url":"u"}"#)).is_ok());
    assert_eq!(
        get_declaration(&tree("1")).unwrap_err(),
        "field `connection` is not a table"
    );
    assert!(Registry::accept(Ok(tree("{}"))).is_ok());
    assert_eq!(
        Registry::accept(Err("why".to_owned())).unwrap_err().to_string(),
        "configuration: invalid registry: why"
    );
    assert_eq!(
        Registry::load(Err("gone".to_owned())).unwrap_err().to_string(),
        "configuration: reading registry: gone"
    );
    assert!(Registry::load(Ok(MINIMAL.to_owned())).is_ok());
}

fn one(name: &str, config: ConnectionConfig) -> Registry {
    let mut connections = TextMap::new();
    connections.insert(name.to_owned(), config);
    Registry { connections }
}

fn http(auth: HttpAuth) -> ConnectionConfig {
    ConnectionConfig::Http {
        transport_config: HttpTransportConfig {
            url: "https://e/".to_owned(),
            headers: TextMap::new(),
        },
        auth,
    }
}

fn stdio(program: &str, cwd: &str, names: &[&str]) -> ConnectionConfig {
    ConnectionConfig::Stdio {
        transport_config: StdioTransportConfig {
            program: program.to_owned(),
            args: Vec::new(),
            cwd: cwd.to_owned(),
            inherit_env: names.iter().map(|name| (*name).to_owned()).collect(),
        },
    }
}

fn oauth(resource: &str, redirect: &str, client_secret: Option<BearerSource>) -> HttpAuth {
    HttpAuth::OAuth {
        config: OAuthConfig {
            resource_url: resource.to_owned(),
            redirect_uri: redirect.to_owned(),
            client_name: "n".to_owned(),
            client_id: None,
            client_metadata_url: None,
            scopes: Vec::new(),
            application_type: "native".to_owned(),
        },
        client_secret,
    }
}

fn environment(name: &str) -> BearerSource {
    BearerSource::Environment {
        environment: name.to_owned(),
    }
}

fn file(path: &str, pointer: &str) -> BearerSource {
    BearerSource::JsonFile {
        path: path.to_owned(),
        pointer: pointer.to_owned(),
    }
}

#[test]
fn registries_are_validated_entry_by_entry() {
    let cases = [
        (one("ok", http(HttpAuth::Absent)), ""),
        (
            one("Bad", http(HttpAuth::Absent)),
            "configuration: connection id must match [a-z0-9_]{1,64}",
        ),
        (
            one("b", http(HttpAuth::Bearer { source: environment("lower") })),
            "configuration: invalid environment name `lower`",
        ),
        (
            one("b", http(HttpAuth::Bearer { source: file("rel", "") })),
            "configuration: credential JSON file path must be absolute",
        ),
        (
            one("b", http(HttpAuth::Bearer { source: file("/f", "p") })),
            "configuration: credential JSON pointer must be empty or start with `/`",
        ),
        (one("b", http(HttpAuth::Bearer { source: file("/f", "") })), ""),
        (one("b", http(HttpAuth::Bearer { source: file("/f", "/p") })), ""),
        (
            one("o", http(oauth("", "x", None))),
            "configuration: OAuth connection `o` requires resource-url and redirect-uri",
        ),
        (
            one("o", http(oauth("x", "", None))),
            "configuration: OAuth connection `o` requires resource-url and redirect-uri",
        ),
        (
            one("o", http(oauth("x", "y", Some(environment(""))))),
            "configuration: invalid environment name ``",
        ),
        (one("o", http(oauth("x", "y", Some(environment("A"))))), ""),
        (one("s", stdio("/p", "/c", &["A"])), ""),
        (
            one("s", stdio("p", "/c", &[])),
            "configuration: stdio program path must be absolute",
        ),
        (one("s", stdio("/p", "c", &[])), "configuration: stdio cwd path must be absolute"),
        (
            one("s", stdio("/p", "/c", &["A", "b"])),
            "configuration: invalid environment name `b`",
        ),
    ];
    for (registry, expected) in cases {
        match registry.validate() {
            Ok(()) => assert_eq!(expected, ""),
            Err(error) => assert_eq!(error.to_string(), expected),
        }
    }
    let mut two = one("z", stdio("p", "/c", &[]));
    two.connections.insert("a".to_owned(), stdio("/p", "c", &[]));
    assert_eq!(
        two.validate().unwrap_err().to_string(),
        "configuration: stdio cwd path must be absolute"
    );
    assert!(validate_source(&environment("A_9")).is_ok());
}

#[test]
fn digests_are_taken_over_canonical_json() {
    let mut registry = one(
        "local",
        ConnectionConfig::Stdio {
            transport_config: StdioTransportConfig {
                program: "/p".to_owned(),
                args: vec!["a".to_owned(), "\"".to_owned()],
                cwd: "/".to_owned(),
                inherit_env: vec!["E".to_owned()],
            },
        },
    );
    let mut headers = TextMap::new();
    headers.insert("y".to_owned(), "2".to_owned());
    headers.insert("X".to_owned(), "1".to_owned());
    registry.connections.insert(
        "http".to_owned(),
        ConnectionConfig::Http {
            transport_config: HttpTransportConfig { url: "u".to_owned(), headers },
            auth: oauth("r", "c", Some(file("/f", "/p"))),
        },
    );
    registry
        .connections
        .insert("plain".to_owned(), http(HttpAuth::Absent));
    registry
        .connections
        .insert("token".to_owned(), http(HttpAuth::Bearer { source: environment("T") }));
    let expected = [
        r#"{"connections":{"#,
        r#""http":{"transport":"http","url":"u","headers":{"X":"1","y":"2"},"#,
        r#""auth":{"kind":"oauth","resource-url":"r","redirect-uri":"c","client-name":"n","#,
        r#""client-id":null,"client-metadata-url":null,"scopes":[],"application-type":"native","#,
        r#""client_secret":{"source":"json-file","path":"/f","pointer":"/p"}}},"#,
        r#""local":{"transport":"stdio","program":"/p","args":["a","\""],"cwd":"/","inherit-env":["E"]},"#,
        r#""plain":{"transport":"http","url":"https://e/","headers":{},"auth":{"kind":"none"}},"#,
        r#""token":{"transport":"http","url":"https://e/","headers":{},"#,
        r#""auth":{"kind":"bearer","source":"environment","environment":"T"}}}}"#,
    ]
    .concat();
    assert_eq!(registry.canonical(), expected.as_bytes().to_vec());
    assert_eq!(registry.sha256().unwrap(), digest(expected.as_bytes()));
    assert_eq!(
        Registry::new().sha256().unwrap(),
        digest(br#"{"connections":{}}"#)
    );
}

#[test]
fn digests_do_not_depend_on_how_a_document_is_written() {
    let a = Registry::parse("[connections.a]\ntransport = \"http\"\nurl = \"u\"\nheaders = { b = \"1\", a = \"2\" }\n").unwrap();
    let b = Registry::parse("connections.a = { headers.a = \"2\", headers.b = \"1\", url = \"u\", transport = \"http\" }").unwrap();
    assert_eq!(a.sha256().unwrap(), b.sha256().unwrap());
    assert_ne!(a.sha256().unwrap(), Registry::new().sha256().unwrap());
}

#[test]
fn sources_say_what_they_read() {
    assert_eq!(environment("A").request().unwrap(), SourceRead::Variable("A"));
    assert_eq!(
        environment("a").request().unwrap_err().to_string(),
        "configuration: invalid environment name `a`"
    );
    assert_eq!(
        file("/f", "p").request().unwrap(),
        SourceRead::File { path: "/f", pointer: "p" }
    );
    assert_eq!(
        file("f", "").request().unwrap_err().to_string(),
        "configuration: credential JSON file path must be absolute"
    );
}

#[test]
fn variables_give_their_secret() {
    assert_eq!(resolve_variable("A", Some("s".to_owned())).unwrap().expose(), "s");
    let refused = |value: Option<String>| match resolve_variable("A", value) {
        Ok(_) => panic!("no refusal"),
        Err(error) => error.to_string(),
    };
    assert_eq!(refused(None), "configuration: credential environment `A` is absent");
    assert_eq!(
        refused(Some(String::new())),
        "configuration: credential environment `A` is empty"
    );
}

#[test]
fn files_give_the_secret_that_the_pointer_selects() {
    let document = br#"{"a":{"b/c":["x","secret"],"e":""},"n":1}"#;
    let resolve = |pointer: &str, content: Result<Vec<u8>, String>| match resolve_file(pointer, content) {
        Ok(secret) => secret.expose().to_owned(),
        Err(error) => error.to_string(),
    };
    let at = |pointer: &str| resolve(pointer, Ok(document.to_vec()));
    assert_eq!(at("/a/b~1c/1"), "secret");
    assert_eq!(resolve("", Ok(b"\"whole\"".to_vec())), "whole");
    assert_eq!(
        at("/n"),
        "configuration: credential JSON pointer `/n` does not select a string"
    );
    assert_eq!(
        at("a"),
        "configuration: credential JSON pointer `a` does not select a string"
    );
    assert_eq!(at("/a/e"), "configuration: credential JSON value is empty");
    assert_eq!(
        resolve("", Ok(b"{".to_vec())),
        "configuration: credential JSON file is malformed"
    );
    assert_eq!(
        resolve("", Err("denied".to_owned())),
        "configuration: reading credential JSON file: denied"
    );
    assert!(select_secret("/x", None).is_err());
    assert!(select_secret("/x", Some(None)).is_err());
    assert_eq!(select_secret("/x", Some(Some("s".to_owned()))).unwrap().expose(), "s");
}

#[test]
fn registries_are_copied_whole() {
    let registry = Registry::parse(MINIMAL).unwrap();
    let copy = registry.clone();
    assert_eq!(copy, registry);
    assert_eq!(copy.sha256().unwrap(), registry.sha256().unwrap());
    let source = BearerSource::JsonFile {
        path: "/c.json".to_owned(),
        pointer: "/token".to_owned(),
    };
    let mut headers = TextMap::new();
    headers.insert("x-b".to_owned(), "2".to_owned());
    headers.insert("x-a".to_owned(), "1".to_owned());
    let config = ConnectionConfig::Http {
        transport_config: HttpTransportConfig { url: "https://e/".to_owned(), headers },
        auth: HttpAuth::Bearer { source },
    };
    assert_eq!(config.clone(), config);
    assert_eq!(Registry::default(), Registry::new());
}
