use b10x_mcp::callback::{
    callback_timeout, loopback_callback, CallbackEndpoint, CALLBACK_BYTES, CALLBACK_RESPONSE,
};
use b10x_mcp::endpoint::HostAddress;
use b10x_mcp::exchange::{
    accept_response, collect_response, inbound_headers, outbound, validate_method,
    validate_response,
};
use b10x_mcp::error::ClientError;
use b10x_mcp::identity::ConnectionId;
use b10x_mcp::limits::TimeSpan;
use b10x_mcp::oauth::{
    access_token, auth_error, claim_credentials, default_application_type, default_client_name,
    require_stored, restore_state, seal_document, validate_config, AuthFailure, BoundCredentials,
    Claim, DocumentKind, OAuthConfig, OAuthEngine, PendingAuthorization,
};
use b10x_mcp::secret::SecretString;
use b10x_mcp::text_map::TextMap;
use b10x_mcp::transport::{HttpRequest, HttpResponse};

fn config(resource: &str, redirect: &str) -> OAuthConfig {
    OAuthConfig {
        resource_url: resource.to_owned(),
        redirect_uri: redirect.to_owned(),
        client_name: default_client_name(),
        client_id: None,
        client_metadata_url: None,
        scopes: Vec::new(),
        application_type: default_application_type(),
    }
}

#[test]
fn remote_cleartext_oauth_is_refused() {
    let config = OAuthConfig {
        resource_url: "http://example.com/mcp".to_owned(),
        redirect_uri: "http://127.0.0.1:3000/callback".to_owned(),
        client_name: default_client_name(),
        client_id: None,
        client_metadata_url: None,
        scopes: Vec::new(),
        application_type: default_application_type(),
    };
    assert!(validate_config(&config).is_err());
}

#[test]
fn configurations_are_refused_by_reason() {
    let https = "https://example.com/mcp";
    let back = "http://127.0.0.1:3000/callback";
    let refusal = |config: OAuthConfig| match validate_config(&config) {
        Ok(()) => String::new(),
        Err(error) => error.to_string(),
    };
    assert_eq!(refusal(config(https, back)), "");
    assert_eq!(refusal(config("http://localhost/mcp", back)), "");
    assert_eq!(refusal(config("http://[::1]/mcp", back)), "");
    assert_eq!(
        refusal(config("mcp", back)),
        "configuration: invalid OAuth resource: relative URL without a base"
    );
    assert_eq!(
        refusal(config("http://example.com/", "also bad")),
        "configuration: OAuth resource requires HTTPS except on loopback"
    );
    assert_eq!(
        refusal(config(https, "")),
        "configuration: invalid OAuth redirect: relative URL without a base"
    );
    assert_eq!(
        refusal(config(https, "app:/back#part")),
        "configuration: OAuth redirect cannot contain a fragment"
    );
    let mut nameless = config(https, back);
    nameless.client_name = String::new();
    assert_eq!(
        refusal(nameless.clone()),
        "configuration: OAuth DCR requires a client name"
    );
    nameless.client_id = Some("i".to_owned());
    assert_eq!(refusal(nameless.clone()), "");
    nameless.client_id = None;
    nameless.client_metadata_url = Some("m".to_owned());
    assert_eq!(refusal(nameless), "");
}

#[test]
fn engines_plan_the_flow_of_their_configuration() {
    let mut settings = config("https://example.com/mcp", "http://127.0.0.1:3000/callback");
    settings.client_id = Some("i".to_owned());
    settings.client_metadata_url = Some("https://m/".to_owned());
    settings.scopes = vec!["a".to_owned(), "b".to_owned()];
    let engine = OAuthEngine::new(settings.clone(), 1_u8, 2_u8, 3_u8).ok().unwrap();
    assert_eq!(engine.config(), &settings);
    assert_eq!((*engine.http(), *engine.credentials(), *engine.states()), (1, 2, 3));
    let secret = SecretString::new("s".to_owned());
    let plan = engine.begin(Some(&secret), Some("scope=x"));
    assert_eq!(plan.redirect_uri, "http://127.0.0.1:3000/callback");
    assert_eq!(plan.client_name, "b10x MCP client");
    assert_eq!(plan.application_type, "native");
    assert_eq!(plan.scopes, ["a", "b"]);
    assert_eq!(plan.preregistered_client.as_deref(), Some("i"));
    assert_eq!(plan.client_secret.as_ref().map(SecretString::expose), Some("s"));
    assert_eq!(plan.client_metadata_url.as_deref(), Some("https://m/"));
    assert_eq!(plan.challenge.as_deref(), Some("scope=x"));
    let bare = engine.begin(None, None);
    assert!(bare.client_secret.is_none());
    assert!(bare.challenge.is_none());
    assert!(OAuthEngine::new(config("http://e/", "x"), (), (), ()).is_err());
}

#[test]
fn pending_flows_keep_their_url_and_session() {
    let pending = PendingAuthorization::new("https://auth/".to_owned(), 9_u8);
    assert_eq!(pending.authorization_url(), "https://auth/");
    assert_eq!(pending.finish(), 9);
}

#[test]
fn authorization_failures_are_reported_by_class() {
    assert_eq!(
        auth_error(AuthFailure::AuthorizationRequired).to_string(),
        "authorization required for `oauth`"
    );
    assert_eq!(
        auth_error(AuthFailure::TokenRefreshRejected).to_string(),
        "authorization required for `oauth`"
    );
    let scoped = AuthFailure::InsufficientScope {
        required_scope: "w".to_owned(),
    };
    assert_eq!(
        auth_error(scoped).to_string(),
        "authorization required for `oauth` with scope `w`"
    );
    assert_eq!(
        auth_error(AuthFailure::Other).to_string(),
        "transport: OAuth operation failed"
    );
    assert_eq!(ConnectionId::oauth(), ConnectionId::new("oauth").unwrap());
}

#[test]
fn tokens_need_stored_credentials() {
    assert!(require_stored(Ok(true)).is_ok());
    assert_eq!(
        require_stored(Ok(false)).unwrap_err().to_string(),
        "authorization required for `oauth`"
    );
    assert!(require_stored(Err(AuthFailure::Other)).is_err());
    assert_eq!(access_token(Ok("t".to_owned())).ok().unwrap().expose(), "t");
    assert!(access_token(Err(AuthFailure::Other)).is_err());
}

#[test]
fn credentials_are_claimed_by_their_own_resource_only() {
    let stored = || Some(Some(BoundCredentials::bind("https://a/", 7_u8)));
    assert!(matches!(claim_credentials("https://a/", stored()), Ok(Claim::Own(7))));
    assert!(matches!(claim_credentials("https://b/", stored()), Ok(Claim::Foreign)));
    assert!(matches!(claim_credentials::<u8>("https://a/", None), Ok(Claim::Absent)));
    match claim_credentials::<u8>("https://a/", Some(None)) {
        Err(message) => assert_eq!(message, "stored OAuth credentials are malformed"),
        Ok(_) => panic!("malformed credentials were claimed"),
    }
}

#[test]
fn documents_are_sealed_and_restored() {
    let text = |r: Result<SecretString, String>| match r {
        Ok(secret) => secret.expose().to_owned(),
        Err(message) => message,
    };
    assert_eq!(text(seal_document(DocumentKind::State, Some("d".to_owned()))), "d");
    assert_eq!(
        text(seal_document(DocumentKind::State, None)),
        "serializing OAuth state failed"
    );
    assert_eq!(
        text(seal_document(DocumentKind::Credentials, None)),
        "serializing OAuth credentials failed"
    );
    assert_eq!(restore_state(Some(Some(3_u8))), Ok(Some(3)));
    assert_eq!(restore_state::<u8>(None), Ok(None));
    assert_eq!(
        restore_state::<u8>(Some(None)),
        Err("stored OAuth state is malformed".to_owned())
    );
}

fn pairs(list: &[(&str, &[u8])]) -> Vec<(String, Vec<u8>)> {
    list.iter().map(|(name, value)| ((*name).to_owned(), value.to_vec())).collect()
}

#[test]
fn requests_carry_text_headers_only() {
    let request = outbound(
        "POST".to_owned(),
        "https://t/".to_owned(),
        &pairs(&[("a", b"1\t~"), ("b", b""), ("a", b"2")]),
        vec![0, 255],
    )
    .unwrap();
    assert_eq!(request.method, "POST");
    assert_eq!(request.url, "https://t/");
    assert_eq!(request.headers.len(), 2);
    assert_eq!(request.headers.get("a").map(String::as_str), Some("2"));
    assert_eq!(request.headers.get("b").map(String::as_str), Some(""));
    assert_eq!(request.body, [0, 255]);
    let refused = outbound(
        "POST".to_owned(),
        String::new(),
        &pairs(&[("a", b"1"), ("b", b"\xc3\xa9")]),
        Vec::new(),
    );
    assert_eq!(refused.unwrap_err(), "OAuth response/request header is not text");
}

#[test]
fn header_bytes_are_text_where_the_outside_crate_says_so() {
    for byte in 0..=255_u8 {
        let kept = inbound_headers(&pairs(&[("n", &[b'a', byte])]));
        let expected = http::HeaderValue::from_bytes(&[b'a', byte])
            .ok()
            .and_then(|value| value.to_str().ok().map(str::to_owned));
        assert_eq!(kept.get("n"), expected.as_ref(), "{byte}");
    }
}

#[test]
fn methods_are_tokens() {
    assert!(validate_method("GET").is_ok());
    for c in (0..0x180_u32).filter_map(char::from_u32) {
        let method = format!("A{c}");
        assert_eq!(
            validate_method(&method).is_ok(),
            http::Method::from_bytes(method.as_bytes()).is_ok(),
            "{c:?}"
        );
    }
    assert_eq!(
        validate_method("").unwrap_err().to_string(),
        "protocol: invalid OAuth HTTP method"
    );
}

#[test]
fn responses_are_buffered_whole_or_refused() {
    let limit = 1024 * 1024;
    let response = collect_response(
        200,
        &pairs(&[("a", b"1"), ("b", b"\xff"), ("c", b"3")]),
        vec![7; limit],
    )
    .unwrap();
    assert_eq!(response.status, 200);
    assert_eq!(response.headers.len(), 2);
    assert_eq!(response.body.len(), limit);
    assert_eq!(
        collect_response(200, &Vec::new(), vec![7; limit + 1]).unwrap_err().to_string(),
        "bound `max_frame_bytes`: 1048577 exceeds 1048576"
    );
}

#[test]
fn responses_are_checked_before_they_are_handed_on() {
    let response = |status: u16, name: &str, value: &str| {
        let mut headers = TextMap::new();
        headers.insert(name.to_owned(), value.to_owned());
        HttpResponse { status, headers, body: Vec::new() }
    };
    assert!(validate_response(&response(100, "a", "b")).is_ok());
    assert!(validate_response(&response(999, "a", "b")).is_ok());
    for status in [0, 99, 1000, u16::MAX] {
        assert_eq!(
            validate_response(&response(status, "a", "b")).unwrap_err(),
            "invalid OAuth response status"
        );
    }
    assert_eq!(
        validate_response(&response(200, "a b", "c")).unwrap_err(),
        "invalid OAuth response"
    );
    assert_eq!(
        validate_response(&response(200, "a", "\n")).unwrap_err(),
        "invalid OAuth response"
    );
}

#[test]
fn failed_exchanges_tell_nothing_of_why() {
    let response = HttpResponse { status: 200, headers: TextMap::new(), body: vec![1, 2] };
    let accepted = accept_response(Ok(response)).unwrap();
    assert_eq!(accepted.status, 200);
    assert_eq!(accepted.body, [1, 2]);
    let failed = Err(ClientError::Transport("SENTINEL".to_owned()));
    assert_eq!(accept_response(failed).unwrap_err(), "OAuth HTTP exchange failed");
    let odd = HttpResponse { status: 99, headers: TextMap::new(), body: Vec::new() };
    assert_eq!(accept_response(Ok(odd)).unwrap_err(), "invalid OAuth response status");
    let mut headers = TextMap::new();
    headers.insert("a b".to_owned(), "c".to_owned());
    let unnamed = HttpResponse { status: 200, headers, body: Vec::new() };
    assert_eq!(accept_response(Ok(unnamed)).unwrap_err(), "invalid OAuth response");
}

#[test]
fn callbacks_are_awaited_on_loopback() {
    let endpoint = loopback_callback("http://127.0.0.1:38123/callback").unwrap();
    assert_eq!(
        endpoint,
        CallbackEndpoint {
            address: HostAddress::V4(0x7f00_0001),
            host: "127.0.0.1".to_owned(),
            port: 38123,
        }
    );
    let six = loopback_callback("http://[::1]:9/").unwrap();
    assert_eq!(six.host, "[::1]");
    assert_eq!(six.address, HostAddress::V6(1));
    let cases = [
        ("callback", "configuration: invalid OAuth redirect: relative URL without a base"),
        (
            "https://127.0.0.1:1/",
            "configuration: standalone login requires an HTTP loopback redirect",
        ),
        (
            "http://localhost:1/",
            "configuration: OAuth redirect host must be a loopback IP",
        ),
        ("http://10.0.0.1:1/", "configuration: OAuth redirect host must be loopback"),
        ("http://127.0.0.1/", "configuration: OAuth redirect requires an explicit port"),
        ("http://127.0.0.1:80/", "configuration: OAuth redirect requires an explicit port"),
    ];
    for (redirect, expected) in cases {
        assert_eq!(loopback_callback(redirect).unwrap_err().to_string(), expected);
    }
    assert_eq!(callback_timeout(), TimeSpan::from_secs(300));
    assert_eq!(CALLBACK_BYTES, 16 * 1024);
    assert!(CALLBACK_RESPONSE.ends_with("Authorization complete. Close tab."));
}

#[test]
fn callback_requests_give_their_url() {
    let endpoint = loopback_callback("http://127.0.0.1:38123/callback").unwrap();
    let url = |request: &[u8]| match endpoint.callback(request) {
        Ok(url) => url,
        Err(error) => error.to_string(),
    };
    assert_eq!(
        url(b"GET /callback?code=a&state=b HTTP/1.1\r\nHost: x\r\n\r\n"),
        "http://127.0.0.1:38123/callback?code=a&state=b"
    );
    assert_eq!(url(b"  GET\t\xc2\xa0/x"), "http://127.0.0.1:38123/x");
    assert_eq!(url("GET /é".as_bytes()), "http://127.0.0.1:38123/é");
    let malformed = "protocol: OAuth callback request is malformed";
    assert_eq!(url(b""), malformed);
    assert_eq!(url(b"GET"), malformed);
    assert_eq!(url(b"GET \r\n/x"), malformed);
    assert_eq!(url(b"\nGET /x"), malformed);
    assert_eq!(url(b"GET /\xff"), "protocol: OAuth callback is not UTF-8");
}

#[test]
fn exchanges_are_copied_whole() {
    let mut headers = TextMap::new();
    headers.insert("b".to_owned(), "2".to_owned());
    headers.insert("a".to_owned(), "1".to_owned());
    let response = HttpResponse { status: 201, headers: headers.clone(), body: vec![7, 8] };
    assert_eq!(response.clone(), response);
    let request = HttpRequest {
        method: "POST".to_owned(),
        url: "https://e/".to_owned(),
        headers,
        body: vec![9],
    };
    assert_eq!(request.clone(), request);
}
