//! How transports are built and how their failures are reported.

use vstd::prelude::*;
use vstd::string::*;

use crate::bearer;
use crate::bearer::is_variable_name;
use crate::challenge;
use crate::challenge::challenge_scope;
use crate::endpoint;
use crate::endpoint::{admit_http_url, UrlParts, UrlView};
use crate::error;
use crate::error::{configuration, joined, transport, ClientError, ErrorView};
use crate::headers;
use crate::headers::parse_headers;
use crate::identity::ConnectionId;
use crate::limits::Limits;
use crate::oauth;
use crate::oauth::copy_texts;
use crate::outside;
use crate::outside::parse_url;
use crate::paths;
use crate::refusal;
use crate::secret::SecretString;
use crate::text_map::TextMap;
use crate::transport::{HttpTransportConfig, StdioTransportConfig};

verus! {

/// What speaks against launching a stdio server.
pub open spec fn launch_refusal(config: StdioTransportConfig) -> Option<ErrorView> {
    if !paths::absolute_text(config.program@) {
        Some(ErrorView::Configuration("stdio program must be an absolute path"@))
    } else if !paths::absolute_text(config.cwd@) {
        Some(ErrorView::Configuration("stdio cwd must be an absolute path"@))
    } else {
        refusal::first(inherited_refusals(config.inherit_env@))
    }
}

/// What speaks against an inherited environment name.
pub open spec fn inherited_refusal(name: Seq<char>) -> Option<ErrorView> {
    if bearer::variable_name(name) {
        None
    } else {
        Some(ErrorView::Configuration("invalid inherited environment name `"@ + name + "`"@))
    }
}

/// What speaks against each of the inherited environment names.
pub open spec fn inherited_refusals(names: Seq<String>) -> Seq<Option<ErrorView>> {
    Seq::new(names.len(), |i: int| inherited_refusal(names[i]@))
}

/// Checks an inherited environment name.
pub fn validate_env_name(name: &str) -> (r: Result<(), ClientError>)
    ensures
        refusal::checked(r, inherited_refusal(name@)),
{
    if is_variable_name(name) {
        Ok(())
    } else {
        Err(ClientError::Configuration(joined("invalid inherited environment name `", name, "`")))
    }
}

/// Checks a stdio declaration before a child is started from it.
pub fn validate_launch(config: &StdioTransportConfig) -> (r: Result<(), ClientError>)
    ensures
        refusal::checked(r, launch_refusal(*config)),
{
    if paths::require_absolute_text(config.program.as_str(), "").is_err() {
        return Err(configuration("stdio program must be an absolute path"));
    }
    if paths::require_absolute_text(config.cwd.as_str(), "").is_err() {
        return Err(configuration("stdio cwd must be an absolute path"));
    }
    let ghost refusals = inherited_refusals(config.inherit_env@);
    let mut i: usize = 0;
    while i < config.inherit_env.len()
        invariant
            i <= config.inherit_env@.len(),
            paths::absolute_text(config.program@),
            paths::absolute_text(config.cwd@),
            refusals == inherited_refusals(config.inherit_env@),
            forall|j: int| 0 <= j < i ==> (#[trigger] refusals[j]) is None,
        decreases config.inherit_env@.len() - i,
    {
        match validate_env_name(config.inherit_env[i].as_str()) {
            Ok(()) => {},
            Err(error) => {
                proof {
                    refusal::lemma_first_at(refusals, i as int);
                }
                return Err(error);
            },
        }
        i = i + 1;
    }
    proof {
        refusal::lemma_first_none(refusals);
    }
    Ok(())
}

/// How a stdio server is to be started: this program and no shell, with these variables and
/// no other.
#[derive(Debug, PartialEq, Eq)]
pub struct LaunchPlan {
    /// Absolute executable path.
    pub program: String,
    /// Exact argument vector.
    pub args: Vec<String>,
    /// Working directory.
    pub cwd: String,
    /// The whole environment, a later variable over an earlier one of its name.
    pub environment: Vec<(String, Vec<u8>)>,
}

/// The contents of a launch plan.
#[verifier::ext_equal]
pub struct LaunchView {
    pub program: Seq<char>,
    pub args: Seq<Seq<char>>,
    pub cwd: Seq<char>,
    pub environment: Seq<(Seq<char>, Seq<u8>)>,
}

/// The contents of an environment.
pub open spec fn variables(environment: Seq<(String, Vec<u8>)>) -> Seq<(Seq<char>, Seq<u8>)> {
    Seq::new(environment.len(), |i: int| (environment[i].0@, environment[i].1@))
}

impl View for LaunchPlan {
    type V = LaunchView;

    open spec fn view(&self) -> LaunchView {
        LaunchView {
            program: self.program@,
            args: oauth::all_texts(self.args@),
            cwd: self.cwd@,
            environment: variables(self.environment@),
        }
    }
}

/// The value that was found for the name at a position, if it is set.
pub open spec fn value_at(values: Seq<Option<Vec<u8>>>, i: int) -> Option<Seq<u8>> {
    if i < values.len() {
        match values[i] {
            Some(value) => Some(value@),
            None => None,
        }
    } else {
        None
    }
}

/// The variables that are inherited: those of the declared names that are set, in their order.
pub open spec fn inherited(names: Seq<String>, values: Seq<Option<Vec<u8>>>) -> Seq<
    (Seq<char>, Seq<u8>),
>
    decreases names.len(),
{
    if names.len() == 0 {
        Seq::empty()
    } else {
        let front = inherited(names.drop_last(), values);
        match value_at(values, names.len() - 1) {
            Some(value) => front.push((names.last()@, value)),
            None => front,
        }
    }
}

/// How a stdio server is started, where `values` are what its inherited names are set to.
pub open spec fn launch_plan(
    config: StdioTransportConfig,
    values: Seq<Option<Vec<u8>>>,
) -> Result<LaunchView, ErrorView> {
    match launch_refusal(config) {
        Some(error) => Err(error),
        None => Ok(
            LaunchView {
                program: config.program@,
                args: oauth::all_texts(config.args@),
                cwd: config.cwd@,
                environment: inherited(config.inherit_env@, values),
            },
        ),
    }
}

/// The variables that are inherited.
fn inherit(names: &Vec<String>, values: &Vec<Option<Vec<u8>>>) -> (r: Vec<(String, Vec<u8>)>)
    ensures
        variables(r@) == inherited(names@, values@),
{
    let mut environment: Vec<(String, Vec<u8>)> = Vec::new();
    let mut i: usize = 0;
    assert(variables(environment@) =~= inherited(names@.take(0), values@));
    while i < names.len()
        invariant
            i <= names@.len(),
            variables(environment@) == inherited(names@.take(i as int), values@),
        decreases names@.len() - i,
    {
        assert(names@.take(i + 1).drop_last() =~= names@.take(i as int));
        if i < values.len() {
            if let Some(value) = &values[i] {
                let ghost front = environment@;
                let mut bytes: Vec<u8> = Vec::new();
                bytes.extend_from_slice(value.as_slice());
                assert(bytes@ =~= value@);
                environment.push((names[i].clone(), bytes));
                assert(variables(environment@) =~= variables(front).push(
                    (names@[i as int]@, value@),
                ));
            }
        }
        i = i + 1;
    }
    assert(names@.take(i as int) =~= names@);
    environment
}

/// Plans the start of a stdio server, where `values` are what its inherited names are set to.
pub fn plan_launch(config: &StdioTransportConfig, values: &Vec<Option<Vec<u8>>>) -> (r: Result<
    LaunchPlan,
    ClientError,
>)
    ensures
        error::outcome(r) == launch_plan(*config, values@),
{
    validate_launch(config)?;
    Ok(
        LaunchPlan {
            program: config.program.clone(),
            args: copy_texts(&config.args),
            cwd: config.cwd.clone(),
            environment: inherit(&config.inherit_env, values),
        },
    )
}

/// How a Streamable HTTP transport is to be built.
pub struct HttpPlan {
    /// Endpoint.
    pub url: String,
    /// Headers of every request, under lowercase names.
    pub headers: TextMap<String>,
    /// Largest SSE event that is read.
    pub max_sse_event_size: usize,
    /// Most requests in flight.
    pub max_concurrent_requests: usize,
    /// Bearer token of every request.
    pub auth_header: Option<SecretString>,
}

/// The contents of an HTTP plan.
#[verifier::ext_equal]
pub struct HttpPlanView {
    pub url: Seq<char>,
    pub headers: Map<Seq<char>, Seq<char>>,
    pub max_sse_event_size: nat,
    pub max_concurrent_requests: nat,
    pub auth_header: Option<Seq<char>>,
}

/// The characters of an optional secret.
pub open spec fn optional_secret(secret: Option<SecretString>) -> Option<Seq<char>> {
    match secret {
        Some(secret) => Some(secret@),
        None => None,
    }
}

impl View for HttpPlan {
    type V = HttpPlanView;

    open spec fn view(&self) -> HttpPlanView {
        HttpPlanView {
            url: self.url@,
            headers: headers::texts(self.headers@),
            max_sse_event_size: self.max_sse_event_size as nat,
            max_concurrent_requests: self.max_concurrent_requests as nat,
            auth_header: optional_secret(self.auth_header),
        }
    }
}

/// How the transport to an endpoint that was parsed like this is built.
pub open spec fn http_plan(
    config: HttpTransportConfig,
    parsed: Result<UrlView, Seq<char>>,
    bearer: Option<Seq<char>>,
    limits: Limits,
) -> Result<HttpPlanView, ErrorView> {
    match endpoint::http_url_refusal(parsed) {
        Some(error) => Err(error),
        None => match headers::read_headers(config.headers.pairs()) {
            Err(error) => Err(error),
            Ok(sent) => Ok(
                HttpPlanView {
                    url: config.url@,
                    headers: sent,
                    max_sse_event_size: limits.max_frame_bytes as nat,
                    max_concurrent_requests: 16,
                    auth_header: bearer,
                },
            ),
        },
    }
}

/// The characters of an optional borrowed secret.
pub open spec fn borrowed_secret(secret: Option<&SecretString>) -> Option<Seq<char>> {
    match secret {
        Some(secret) => Some(secret@),
        None => None,
    }
}

/// Checks an HTTP declaration and plans its transport.
pub fn plan_http(
    config: &HttpTransportConfig,
    bearer: Option<&SecretString>,
    limits: Limits,
) -> (r: Result<HttpPlan, ClientError>)
    ensures
        error::outcome(r) == http_plan(
            *config,
            outside::parsed_url(config.url@),
            borrowed_secret(bearer),
            limits,
        ),
{
    plan_parsed(config, parse_url(config.url.as_str()), bearer, limits)
}

/// Checks an HTTP declaration whose endpoint was parsed like this and plans its transport.
pub fn plan_parsed(
    config: &HttpTransportConfig,
    parsed: Result<UrlParts, String>,
    bearer: Option<&SecretString>,
    limits: Limits,
) -> (r: Result<HttpPlan, ClientError>)
    ensures
        error::outcome(r) == http_plan(
            *config,
            endpoint::url_outcome(parsed),
            borrowed_secret(bearer),
            limits,
        ),
{
    admit_http_url(parsed)?;
    let headers = parse_headers(&config.headers)?;
    let auth_header = match bearer {
        Some(bearer) => Some(bearer.clone()),
        None => None,
    };
    Ok(
        HttpPlan {
            url: config.url.clone(),
            headers,
            max_sse_event_size: limits.max_frame_bytes,
            max_concurrent_requests: 16,
            auth_header,
        },
    )
}

/// Why lifecycle negotiation did not complete.
#[derive(Debug, PartialEq, Eq)]
pub enum NegotiationFailure {
    /// The request timeout passed.
    TimedOut,
    /// The server wants authorization, and may have challenged for it.
    AuthorizationRequired {
        /// Challenge header.
        challenge: Option<String>,
    },
    /// Anything else.
    Other,
}

/// What a failed negotiation is reported as.
pub open spec fn negotiation_report(id: Seq<char>, failure: NegotiationFailure) -> ErrorView {
    match failure {
        NegotiationFailure::TimedOut => ErrorView::Transport(
            "MCP lifecycle negotiation timed out"@,
        ),
        NegotiationFailure::AuthorizationRequired { challenge } => {
            ErrorView::AuthorizationRequired {
                connection: id,
                scope: match challenge {
                    Some(challenge) => challenge::scope_asked(challenge@),
                    None => None,
                },
            }
        },
        NegotiationFailure::Other => ErrorView::Transport("MCP lifecycle negotiation failed"@),
    }
}

/// Reports a failed negotiation, without anything that the server said but a scope.
pub fn negotiation_error(id: &ConnectionId, failure: NegotiationFailure) -> (r: ClientError)
    ensures
        r@ == negotiation_report(id@, failure),
{
    match failure {
        NegotiationFailure::TimedOut => transport("MCP lifecycle negotiation timed out"),
        NegotiationFailure::AuthorizationRequired { challenge } => {
            let scope = match &challenge {
                Some(challenge) => challenge_scope(Some(challenge.as_str())),
                None => None,
            };
            ClientError::AuthorizationRequired { connection: id.clone(), scope }
        },
        NegotiationFailure::Other => transport("MCP lifecycle negotiation failed"),
    }
}

/// One error in the chain of causes of a failed request.
#[derive(Debug, PartialEq, Eq)]
pub enum Cause {
    /// The server refused the scope, and may have named the one it wants.
    InsufficientScope {
        /// Scope wanted.
        required_scope: Option<String>,
    },
    /// The server wants authorization.
    AuthorizationRequired,
    /// Anything else.
    Other,
}

/// The class of a failed request.
#[derive(Debug, Clone, Copy, PartialEq, Eq, Structural)]
pub enum FailureClass {
    /// The request was cancelled.
    Cancelled,
    /// The request timed out.
    TimedOut,
    /// The transport closed.
    TransportClosed,
    /// Anything else.
    Other,
}

/// The authorization that one cause names: none, or one with or without a scope.
pub open spec fn authorization_asked(cause: Cause) -> Option<Option<Seq<char>>> {
    match cause {
        Cause::InsufficientScope { required_scope: Some(scope) } => Some(Some(scope@)),
        Cause::InsufficientScope { required_scope: None } => None,
        Cause::AuthorizationRequired => Some(None),
        Cause::Other => None,
    }
}

/// The authorization that the first cause to name one names.
pub open spec fn first_asked(causes: Seq<Cause>) -> Option<Option<Seq<char>>>
    decreases causes.len(),
{
    if causes.len() == 0 {
        None
    } else {
        match authorization_asked(causes[0]) {
            Some(scope) => Some(scope),
            None => first_asked(causes.skip(1)),
        }
    }
}

/// A cause that finds the scope insufficient and names no other.
pub open spec fn insufficient(cause: Cause) -> bool {
    cause matches Cause::InsufficientScope { required_scope: None }
}

/// The authorization that a chain of causes asks for: the first that is named, or one without
/// a scope where the scope was found insufficient and no cause names any.
pub open spec fn asked(causes: Seq<Cause>) -> Option<Option<Seq<char>>> {
    match first_asked(causes) {
        Some(scope) => Some(scope),
        None => if exists|i: int| 0 <= i < causes.len() && insufficient(#[trigger] causes[i]) {
            Some(None)
        } else {
            None
        },
    }
}

/// What a failed request is reported as.
pub open spec fn service_report(
    causes: Seq<Cause>,
    class: FailureClass,
    id: Seq<char>,
) -> ErrorView {
    match asked(causes) {
        Some(scope) => ErrorView::AuthorizationRequired { connection: id, scope },
        None => ErrorView::Transport(
            match class {
                FailureClass::Cancelled => "request cancelled"@,
                FailureClass::TimedOut => "request timed out"@,
                FailureClass::TransportClosed => "transport closed"@,
                FailureClass::Other => "MCP request failed"@,
            },
        ),
    }
}

/// Reports a failed request by its class, without anything that the server said but a scope.
pub fn map_service_error(causes: &Vec<Cause>, class: FailureClass, id: &ConnectionId) -> (r:
    ClientError)
    ensures
        r@ == service_report(causes@, class, id@),
{
    let mut unnamed = false;
    let mut i: usize = 0;
    assert(causes@.skip(0) =~= causes@);
    while i < causes.len()
        invariant
            i <= causes@.len(),
            first_asked(causes@) == first_asked(causes@.skip(i as int)),
            unnamed == exists|j: int| 0 <= j < i && insufficient(#[trigger] causes@[j]),
        decreases causes@.len() - i,
    {
        assert(causes@.skip(i as int).skip(1) =~= causes@.skip(i + 1));
        assert(causes@.skip(i as int)[0] == causes@[i as int]);
        match &causes[i] {
            Cause::InsufficientScope { required_scope: Some(scope) } => {
                return ClientError::AuthorizationRequired {
                    connection: id.clone(),
                    scope: Some(scope.clone()),
                };
            },
            Cause::AuthorizationRequired => {
                return ClientError::AuthorizationRequired { connection: id.clone(), scope: None };
            },
            Cause::InsufficientScope { required_scope: None } => {
                assert(insufficient(causes@[i as int]));
                unnamed = true;
            },
            Cause::Other => {},
        }
        i = i + 1;
    }
    if unnamed {
        return ClientError::AuthorizationRequired { connection: id.clone(), scope: None };
    }
    transport(
        match class {
            FailureClass::Cancelled => "request cancelled",
            FailureClass::TimedOut => "request timed out",
            FailureClass::TransportClosed => "transport closed",
            FailureClass::Other => "MCP request failed",
        },
    )
}

} // verus!
