//! Commands of the standalone client, as decisions around files, processes and servers.

use vstd::prelude::*;
use vstd::string::*;

use crate::bearer::BearerSource;
use crate::canonical;
use crate::connection::Connection;
use crate::error;
use crate::error::{configuration, joined, pair, ClientError, ErrorView};
use crate::identity;
use crate::identity::ConnectionId;
use crate::json;
use crate::json::{Json, JsonTree};
use crate::oauth::OAuthConfig;
use crate::outside;
use crate::paths;
use crate::paths::{require_absolute, LocalPaths, UnixPath};
use crate::refusal;
use crate::registry_digest;
use crate::registry::{ConnectionConfig, HttpAuth, Registry};
use crate::secret::SecretString;
use crate::text;
use crate::text::decimal_text;
use crate::tools;
use crate::tools::ToolCall;

verus! {

/// Standalone command-line surface.
#[derive(Debug, PartialEq, Eq)]
pub struct Cli {
    /// Override of the shared local registry path.
    pub registry: Option<UnixPath>,
    /// Command to execute.
    pub command: Command,
}

/// MCP registry and client operations.
#[derive(Debug, PartialEq, Eq)]
pub enum Command {
    /// Manage the local registry.
    Config(ConfigArgs),
    /// Inspect named connections.
    Connections(ConnectionsArgs),
    /// Manage OAuth authorization.
    Auth(AuthArgs),
    /// Discover and call tools.
    Tools(ToolsArgs),
}

/// Registry operations.
#[derive(Debug, PartialEq, Eq)]
pub struct ConfigArgs {
    /// Registry operation.
    pub command: ConfigCommand,
}

/// Registry operations.
#[derive(Debug, PartialEq, Eq)]
pub enum ConfigCommand {
    /// Create an empty registry if none exists.
    Init,
    /// Strictly parse and validate the registry.
    Check,
}

/// Connection inspection.
#[derive(Debug, PartialEq, Eq)]
pub struct ConnectionsArgs {
    /// Connection operation.
    pub command: ConnectionsCommand,
}

/// Connection operations.
#[derive(Debug, PartialEq, Eq)]
pub enum ConnectionsCommand {
    /// List local connection names without contacting servers.
    List,
    /// Show one non-secret connection declaration.
    Show(ConnectionName),
    /// Connect, negotiate, and freeze the tool list.
    Check(ConnectionName),
}

/// OAuth operations.
#[derive(Debug, PartialEq, Eq)]
pub struct AuthArgs {
    /// Authorization operation.
    pub command: AuthCommand,
}

/// OAuth operations.
#[derive(Debug, PartialEq, Eq)]
pub enum AuthCommand {
    /// Print an authorization URL and wait on the declared loopback callback.
    Login(ConnectionName),
    /// Report whether authorization credentials exist, without printing them.
    Status(ConnectionName),
    /// Delete authorization credentials for one connection.
    Logout(ConnectionName),
}

/// Tool operations.
#[derive(Debug, PartialEq, Eq)]
pub struct ToolsArgs {
    /// Tool operation.
    pub command: ToolsCommand,
}

/// Tool operations.
#[derive(Debug, PartialEq, Eq)]
pub enum ToolsCommand {
    /// List the frozen discovery result.
    List(ConnectionName),
    /// Print the complete frozen descriptor snapshot as JSON.
    Snapshot(ConnectionName),
    /// Call one tool with a JSON object.
    Call {
        /// Named connection.
        connection: String,
        /// MCP tool name, as the server gave it.
        tool: String,
        /// JSON object passed to tools/call.
        arguments: String,
    },
}

/// One connection argument.
#[derive(Debug, PartialEq, Eq)]
pub struct ConnectionName {
    /// Named registry entry.
    pub connection: String,
}

impl ConnectionName {
    /// The connection that the argument names.
    pub fn connection_id(&self) -> (r: Result<ConnectionId, ClientError>)
        ensures
            r is Ok <==> identity::connection_name(self.connection@),
            r is Ok ==> r->Ok_0@ == self.connection@,
            r is Err ==> r->Err_0@ == identity::bad_connection_name(),
    {
        ConnectionId::new(self.connection.as_str())
    }
}

/// Where the registry is: at the override, or at the conventional place.
pub fn registry_path(registry: Option<UnixPath>, paths: &LocalPaths) -> (r: UnixPath)
    ensures
        r@ == match registry {
            Some(path) => path@,
            None => paths@.registry,
        },
{
    match registry {
        Some(path) => path,
        None => paths.registry.copy(),
    }
}

/// What a new registry holds.
pub const REGISTRY_TEMPLATE: &'static str = "# Named MCP connections. Credential values are not allowed here.\n[connections]\n";

/// How far the creation of a registry has come.
#[derive(Debug, Clone, Copy, PartialEq, Eq, Structural)]
pub enum InitStep {
    /// Whether there is a registry already has to be known.
    Probe,
    /// The directory has to be there.
    CreateDirectory,
    /// The template has to be in the file.
    Write,
    /// Nothing is left.
    Done,
}

/// What an action on the file system gave while a registry is created.
#[derive(Debug, PartialEq, Eq)]
pub enum InitEvent {
    /// Whether there is a registry already.
    Probed(bool),
    /// The action was done.
    Finished,
    /// The action failed, for a reason.
    Failed(String),
}

/// What an event leads to in the creation of a registry.
pub open spec fn init_outcome(step: InitStep, event: InitEvent) -> Result<InitStep, ErrorView> {
    match (step, event) {
        (InitStep::Probe, InitEvent::Failed(reason)) => Err(
            ErrorView::Configuration("checking registry: "@ + reason@),
        ),
        (InitStep::Probe, InitEvent::Probed(true)) => Err(
            ErrorView::Configuration("registry already exists"@),
        ),
        (InitStep::Probe, InitEvent::Probed(false)) => Ok(InitStep::CreateDirectory),
        (InitStep::CreateDirectory, InitEvent::Failed(reason)) => Err(
            ErrorView::Configuration("creating registry directory: "@ + reason@),
        ),
        (InitStep::CreateDirectory, InitEvent::Finished) => Ok(InitStep::Write),
        (InitStep::Write, InitEvent::Failed(reason)) => Err(
            ErrorView::Configuration("writing registry: "@ + reason@),
        ),
        (InitStep::Write, InitEvent::Finished) => Ok(InitStep::Done),
        _ => Ok(step),
    }
}

/// Starts the creation of a registry, without touching the file system.
pub fn init_registry(path: &UnixPath) -> (r: Result<InitStep, ClientError>)
    ensures
        refusal::checked(
            r,
            if paths::absolute(path@) {
                None
            } else {
                Some(paths::not_absolute("registry"@))
            },
        ),
        r is Ok ==> r->Ok_0 == InitStep::Probe,
{
    require_absolute(path, "registry")?;
    Ok(InitStep::Probe)
}

impl InitStep {
    /// Goes on after the action of this step.
    pub fn advance(self, event: InitEvent) -> (r: Result<InitStep, ClientError>)
        ensures
            match r {
                Ok(step) => init_outcome(self, event) == Ok::<_, ErrorView>(step),
                Err(error) => init_outcome(self, event) == Err::<InitStep, _>(error@),
            },
    {
        match (self, event) {
            (InitStep::Probe, InitEvent::Failed(reason)) => Err(
                ClientError::Configuration(pair("checking registry: ", reason.as_str())),
            ),
            (InitStep::Probe, InitEvent::Probed(true)) => Err(
                configuration("registry already exists"),
            ),
            (InitStep::Probe, InitEvent::Probed(false)) => Ok(InitStep::CreateDirectory),
            (InitStep::CreateDirectory, InitEvent::Failed(reason)) => Err(
                ClientError::Configuration(pair("creating registry directory: ", reason.as_str())),
            ),
            (InitStep::CreateDirectory, InitEvent::Finished) => Ok(InitStep::Write),
            (InitStep::Write, InitEvent::Failed(reason)) => Err(
                ClientError::Configuration(pair("writing registry: ", reason.as_str())),
            ),
            (InitStep::Write, InitEvent::Finished) => Ok(InitStep::Done),
            _ => Ok(self),
        }
    }
}

/// The connection, its OAuth configuration and the source of its client secret, where a
/// connection has an OAuth flow.
#[derive(Debug, PartialEq, Eq)]
pub struct OAuthTarget<'a> {
    /// Connection.
    pub id: ConnectionId,
    /// Non-secret OAuth client configuration.
    pub config: &'a OAuthConfig,
    /// Source of a confidential-client secret.
    pub client_secret: &'a Option<BearerSource>,
}

/// The contents of an OAuth target.
#[verifier::ext_equal]
pub struct TargetView {
    pub id: Seq<char>,
    pub config: OAuthConfig,
    pub client_secret: Option<BearerSource>,
}

impl<'a> View for OAuthTarget<'a> {
    type V = TargetView;

    open spec fn view(&self) -> TargetView {
        TargetView { id: self.id@, config: *self.config, client_secret: *self.client_secret }
    }
}

/// The OAuth flow of the connection `name`, which has one.
pub open spec fn target_of(registry: Registry, name: Seq<char>) -> TargetView {
    let auth = registry.connections@[name]->auth;
    TargetView { id: name, config: auth->config, client_secret: auth->client_secret }
}

/// What speaks against an OAuth flow of the connection `name`.
pub open spec fn target_refusal(registry: Registry, name: Seq<char>) -> Option<ErrorView> {
    if !identity::connection_name(name) {
        Some(identity::bad_connection_name())
    } else if !registry.connections@.contains_key(name) {
        Some(ErrorView::Configuration("unknown MCP connection `"@ + name + "`"@))
    } else {
        match registry.connections@[name] {
            ConnectionConfig::Stdio { .. } => Some(
                ErrorView::Configuration(
                    "connection `"@ + name + "` uses stdio and has no HTTP OAuth flow"@,
                ),
            ),
            ConnectionConfig::Http { auth, .. } => if auth is OAuth {
                None
            } else {
                Some(
                    ErrorView::Configuration(
                        "connection `"@ + name + "` is not configured for OAuth"@,
                    ),
                )
            },
        }
    }
}

/// Selects the OAuth flow of a named connection.
pub fn oauth_target<'a>(registry: &'a Registry, name: &ConnectionName) -> (r: Result<
    OAuthTarget<'a>,
    ClientError,
>)
    ensures
        refusal::checked(r, target_refusal(*registry, name.connection@)),
        r is Ok ==> r->Ok_0@ == target_of(*registry, name.connection@),
{
    let id = match name.connection_id() {
        Ok(id) => id,
        Err(error) => return Err(error),
    };
    let config = match registry.connection(&id) {
        Ok(config) => config,
        Err(error) => return Err(error),
    };
    match config {
        ConnectionConfig::Stdio { .. } => Err(
            ClientError::Configuration(
                joined(
                    "connection `",
                    id.as_str(),
                    "` uses stdio and has no HTTP OAuth flow",
                ),
            ),
        ),
        ConnectionConfig::Http { auth, .. } => match auth {
            HttpAuth::OAuth { config, client_secret } => Ok(
                OAuthTarget { id, config, client_secret },
            ),
            _ => Err(
                ClientError::Configuration(
                    joined("connection `", id.as_str(), "` is not configured for OAuth"),
                ),
            ),
        },
    }
}

/// A failure that names the connection `id` where it asks for authorization.
pub open spec fn rebound(error: ErrorView, id: Seq<char>) -> ErrorView {
    match error {
        ErrorView::AuthorizationRequired { scope, .. } => ErrorView::AuthorizationRequired {
            connection: id,
            scope,
        },
        other => other,
    }
}

/// Names a connection in a failure that asks for authorization.
pub fn rebind_authorization(error: ClientError, id: &ConnectionId) -> (r: ClientError)
    ensures
        r@ == rebound(error@, id@),
{
    match error {
        ClientError::AuthorizationRequired { scope, .. } => ClientError::AuthorizationRequired {
            connection: id.clone(),
            scope,
        },
        other => other,
    }
}

/// What the credential of an HTTP connection comes from.
#[derive(Debug, PartialEq, Eq)]
pub enum BearerNeed<'a> {
    /// There is none.
    Absent,
    /// A declared source.
    Source(&'a BearerSource),
    /// The access token of an OAuth flow.
    AccessToken(&'a OAuthConfig),
}

/// What the credential of an HTTP connection comes from.
pub fn http_bearer(auth: &HttpAuth) -> (r: BearerNeed<'_>)
    ensures
        match *auth {
            HttpAuth::Absent => r is Absent,
            HttpAuth::Bearer { source } => r == BearerNeed::Source(&source),
            HttpAuth::OAuth { config, .. } => r == BearerNeed::AccessToken(&config),
        },
{
    match auth {
        HttpAuth::Absent => BearerNeed::Absent,
        HttpAuth::Bearer { source } => BearerNeed::Source(source),
        HttpAuth::OAuth { config, .. } => BearerNeed::AccessToken(config),
    }
}

/// What asking for an access token says about a connection: a line to show, or a failure.
pub open spec fn status_report(id: Seq<char>, token: Result<Seq<char>, ErrorView>) -> Result<
    Seq<char>,
    ErrorView,
> {
    match token {
        Ok(_) => Ok("authorized "@ + id),
        Err(ErrorView::AuthorizationRequired { .. }) => Ok("authorization-required "@ + id),
        Err(error) => Err(error),
    }
}

/// Reports what asking for an access token says about a connection, without the token.
pub fn authorization_status(id: &ConnectionId, token: Result<SecretString, ClientError>) -> (r:
    Result<String, ClientError>)
    ensures
        error::outcome(r) == status_report(id@, error::outcome(token)),
{
    match token {
        Ok(_) => Ok(authorized_line(id)),
        Err(ClientError::AuthorizationRequired { .. }) => Ok(
            pair("authorization-required ", id.as_str()),
        ),
        Err(error) => Err(rebind_authorization(error, id)),
    }
}

/// The line that a completed authorization is shown as.
pub fn authorized_line(id: &ConnectionId) -> (r: String)
    ensures
        r@ == "authorized "@ + id@,
{
    pair("authorized ", id.as_str())
}

/// The line that deleted credentials are shown as.
pub fn logged_out_line(id: &ConnectionId) -> (r: String)
    ensures
        r@ == "logged-out "@ + id@,
{
    pair("logged-out ", id.as_str())
}

/// The line that asks the resource owner to visit a URL.
pub fn open_line(url: &str) -> (r: String)
    ensures
        r@ == "open "@ + url@,
{
    pair("open ", url)
}

/// The line that a checked registry is shown as.
pub fn registry_line(registry: &Registry) -> (r: Result<String, ClientError>)
    ensures
        r is Ok,
        r->Ok_0@ == "ok "@ + text::decimal(registry.connections.pairs().len()) + " "@
            + canonical::digest_text(registry_digest::registry_bytes(registry.connections.pairs())),
{
    let sha256 = registry.sha256()?;
    let mut line = pair("ok ", decimal_text(registry.connections.len()).as_str());
    line.append(" ");
    line.append(sha256.as_str());
    Ok(line)
}

/// The line that a checked connection is shown as.
pub fn connection_line(connection: &Connection) -> (r: String)
    ensures
        r@ == "ok "@ + connection@.snapshot.protocol_version + " "@ + text::decimal(
            connection@.snapshot.tools.len(),
        ) + " "@ + connection@.snapshot.sha256,
{
    let snapshot = connection.snapshot();
    let mut line = pair("ok ", snapshot.protocol_version.as_str());
    line.append(" ");
    line.append(decimal_text(snapshot.tools.len()).as_str());
    line.append(" ");
    line.append(snapshot.sha256.as_str());
    line
}

/// The names of the connections of a registry, in their order.
pub fn connection_names(registry: &Registry) -> (r: Vec<String>)
    ensures
        r@.len() == registry.connections.pairs().len(),
        forall|i: int|
            0 <= i < r@.len() ==> (#[trigger] r@[i])@ == registry.connections.pairs()[i].0,
{
    let ghost pairs = registry.connections.pairs();
    let mut names: Vec<String> = Vec::new();
    let mut i: usize = 0;
    while i < registry.connections.len()
        invariant
            pairs == registry.connections.pairs(),
            i <= pairs.len(),
            names@.len() == i,
            forall|j: int| 0 <= j < i ==> (#[trigger] names@[j])@ == pairs[j].0,
        decreases pairs.len() - i,
    {
        names.push(registry.connections.key(i).to_owned());
        i = i + 1;
    }
    names
}

/// The names of the tools of a connection, in the order of the server.
pub fn tool_names(connection: &Connection) -> (r: Vec<String>)
    ensures
        crate::oauth::all_texts(r@) == tools::names(connection@.snapshot.tools),
{
    let snapshot = connection.snapshot();
    let mut names: Vec<String> = Vec::new();
    let mut i: usize = 0;
    while i < snapshot.tools.len()
        invariant
            i <= snapshot.tools@.len(),
            names@.len() == i,
            forall|j: int| 0 <= j < i ==> (#[trigger] names@[j])@ == snapshot.tools@[j].name@,
        decreases snapshot.tools@.len() - i,
    {
        names.push(snapshot.tools[i].name.clone());
        i = i + 1;
    }
    assert(crate::oauth::all_texts(names@) =~= tools::names(snapshot@.tools));
    names
}

/// The contents of a call.
pub open spec fn call_outcome(r: Result<ToolCall, ClientError>) -> Result<
    (Seq<char>, JsonTree),
    ErrorView,
> {
    match r {
        Ok(call) => Ok((call.name@, call.arguments@)),
        Err(error) => Err(error@),
    }
}

/// The call of a tool with arguments that were parsed like this.
pub open spec fn requested_call(tool: Seq<char>, parsed: Result<JsonTree, Seq<char>>) -> Result<
    (Seq<char>, JsonTree),
    ErrorView,
> {
    match parsed {
        Ok(arguments) => Ok((tool, arguments)),
        Err(reason) => Err(ErrorView::Configuration("invalid arguments: "@ + reason)),
    }
}

/// The call of a tool with arguments given as text.
pub fn tool_call(tool: String, arguments: &str) -> (r: Result<ToolCall, ClientError>)
    ensures
        call_outcome(r) == requested_call(tool@, outside::json_text(arguments@)),
{
    tool_call_parsed(tool, Json::parse(arguments))
}

/// The call of a tool with arguments that were parsed like this.
pub fn tool_call_parsed(tool: String, parsed: Result<Json, String>) -> (r: Result<
    ToolCall,
    ClientError,
>)
    ensures
        call_outcome(r) == requested_call(tool@, json::parse_outcome(parsed)),
{
    match parsed {
        Ok(arguments) => Ok(ToolCall { name: tool, arguments }),
        Err(reason) => Err(
            ClientError::Configuration(pair("invalid arguments: ", reason.as_str())),
        ),
    }
}

/// What a connection is made for.
#[derive(Debug, PartialEq)]
pub enum Purpose {
    /// Report that it was made.
    Report,
    /// List its tools.
    ListTools,
    /// Print its snapshot.
    PrintSnapshot,
    /// Call one of its tools.
    Call(ToolCall),
}

/// What has to be done for a command.
#[derive(Debug, PartialEq)]
pub enum Task<'a> {
    /// Create an empty registry.
    CreateRegistry,
    /// Report that the registry was loaded.
    ReportRegistry,
    /// List the names of connections.
    ListConnections,
    /// Show a declaration.
    ShowConnection(&'a ConnectionConfig),
    /// Make a connection.
    Connect {
        /// Connection.
        id: ConnectionId,
        /// Declaration.
        config: &'a ConnectionConfig,
        /// What for.
        purpose: Purpose,
    },
    /// Report the authorization of a connection.
    Status(OAuthTarget<'a>),
    /// Delete the credentials of a connection.
    Logout(OAuthTarget<'a>),
    /// Run the authorization flow of a connection.
    Login(OAuthTarget<'a>),
}

/// The contents of a purpose.
#[verifier::ext_equal]
pub enum PurposeView {
    Report,
    ListTools,
    PrintSnapshot,
    Call { name: Seq<char>, arguments: JsonTree },
}

/// The contents of a task.
#[verifier::ext_equal]
pub enum TaskView {
    CreateRegistry,
    ReportRegistry,
    ListConnections,
    ShowConnection(ConnectionConfig),
    Connect { id: Seq<char>, config: ConnectionConfig, purpose: PurposeView },
    Status(TargetView),
    Logout(TargetView),
    Login(TargetView),
}

impl View for Purpose {
    type V = PurposeView;

    open spec fn view(&self) -> PurposeView {
        match *self {
            Purpose::Report => PurposeView::Report,
            Purpose::ListTools => PurposeView::ListTools,
            Purpose::PrintSnapshot => PurposeView::PrintSnapshot,
            Purpose::Call(call) => PurposeView::Call {
                name: call.name@,
                arguments: call.arguments@,
            },
        }
    }
}

impl<'a> View for Task<'a> {
    type V = TaskView;

    open spec fn view(&self) -> TaskView {
        match *self {
            Task::CreateRegistry => TaskView::CreateRegistry,
            Task::ReportRegistry => TaskView::ReportRegistry,
            Task::ListConnections => TaskView::ListConnections,
            Task::ShowConnection(config) => TaskView::ShowConnection(*config),
            Task::Connect { id, config, purpose } => TaskView::Connect {
                id: id@,
                config: *config,
                purpose: purpose@,
            },
            Task::Status(target) => TaskView::Status(target@),
            Task::Logout(target) => TaskView::Logout(target@),
            Task::Login(target) => TaskView::Login(target@),
        }
    }
}

/// What speaks against the choice of the connection `name`.
pub open spec fn choice_refusal(registry: Registry, name: Seq<char>) -> Option<ErrorView> {
    if !identity::connection_name(name) {
        Some(identity::bad_connection_name())
    } else if !registry.connections@.contains_key(name) {
        Some(ErrorView::Configuration("unknown MCP connection `"@ + name + "`"@))
    } else {
        None
    }
}

/// The task of connecting to the connection `name`.
pub open spec fn connect_task(
    registry: Registry,
    name: Seq<char>,
    purpose: PurposeView,
) -> Result<TaskView, ErrorView> {
    match choice_refusal(registry, name) {
        Some(error) => Err(error),
        None => Ok(TaskView::Connect { id: name, config: registry.connections@[name], purpose }),
    }
}

/// The task that authorizes the connection `name`, where it has an OAuth flow.
pub open spec fn auth_task(registry: Registry, name: Seq<char>, task: TaskView) -> Result<
    TaskView,
    ErrorView,
> {
    match target_refusal(registry, name) {
        Some(error) => Err(error),
        None => Ok(task),
    }
}

/// The task that a command is, where the arguments of a call were parsed like this.
pub open spec fn task(
    command: Command,
    parsed: Result<JsonTree, Seq<char>>,
    registry: Registry,
) -> Result<TaskView, ErrorView> {
    match command {
        Command::Config(args) => match args.command {
            ConfigCommand::Init => Ok(TaskView::CreateRegistry),
            ConfigCommand::Check => Ok(TaskView::ReportRegistry),
        },
        Command::Connections(args) => match args.command {
            ConnectionsCommand::List => Ok(TaskView::ListConnections),
            ConnectionsCommand::Show(name) => match choice_refusal(registry, name.connection@) {
                Some(error) => Err(error),
                None => Ok(TaskView::ShowConnection(registry.connections@[name.connection@])),
            },
            ConnectionsCommand::Check(name) => connect_task(
                registry,
                name.connection@,
                PurposeView::Report,
            ),
        },
        Command::Auth(args) => match args.command {
            AuthCommand::Login(name) => auth_task(
                registry,
                name.connection@,
                TaskView::Login(target_of(registry, name.connection@)),
            ),
            AuthCommand::Status(name) => auth_task(
                registry,
                name.connection@,
                TaskView::Status(target_of(registry, name.connection@)),
            ),
            AuthCommand::Logout(name) => auth_task(
                registry,
                name.connection@,
                TaskView::Logout(target_of(registry, name.connection@)),
            ),
        },
        Command::Tools(args) => match args.command {
            ToolsCommand::List(name) => connect_task(
                registry,
                name.connection@,
                PurposeView::ListTools,
            ),
            ToolsCommand::Snapshot(name) => connect_task(
                registry,
                name.connection@,
                PurposeView::PrintSnapshot,
            ),
            ToolsCommand::Call { connection, tool, .. } => match requested_call(tool@, parsed) {
                Err(error) => Err(error),
                Ok((name, arguments)) => connect_task(
                    registry,
                    connection@,
                    PurposeView::Call { name, arguments },
                ),
            },
        },
    }
}

/// The text of the arguments that a command calls a tool with, and an empty object for any
/// other command.
pub open spec fn arguments_of(command: Command) -> Seq<char> {
    match command {
        Command::Tools(args) => match args.command {
            ToolsCommand::Call { arguments, .. } => arguments@,
            _ => "{}"@,
        },
        _ => "{}"@,
    }
}

/// Selects a declared connection by its name.
fn choose_connection<'a>(registry: &'a Registry, name: &str) -> (r: Result<
    (ConnectionId, &'a ConnectionConfig),
    ClientError,
>)
    ensures
        refusal::checked(r, choice_refusal(*registry, name@)),
        r is Ok ==> r->Ok_0.0@ == name@ && *r->Ok_0.1 == registry.connections@[name@],
{
    let id = match ConnectionId::new(name) {
        Ok(id) => id,
        Err(error) => return Err(error),
    };
    match registry.connection(&id) {
        Ok(config) => Ok((id, config)),
        Err(error) => Err(error),
    }
}

/// The task of connecting to a named connection.
fn connect_to<'a>(registry: &'a Registry, name: &str, purpose: Purpose) -> (r: Result<
    Task<'a>,
    ClientError,
>)
    ensures
        error::outcome(r) == connect_task(*registry, name@, purpose@),
{
    let (id, config) = choose_connection(registry, name)?;
    Ok(Task::Connect { id, config, purpose })
}

/// Selects the task that a command is, against a loaded registry.
pub fn select<'a>(command: Command, registry: &'a Registry) -> (r: Result<Task<'a>, ClientError>)
    ensures
        error::outcome(r) == task(command, outside::json_text(arguments_of(command)), *registry),
{
    let parsed = match &command {
        Command::Tools(args) => match &args.command {
            ToolsCommand::Call { arguments, .. } => Json::parse(arguments.as_str()),
            _ => Json::parse("{}"),
        },
        _ => Json::parse("{}"),
    };
    select_parsed(command, parsed, registry)
}

/// Selects the task that a command is, where the arguments of a call were parsed like this.
pub fn select_parsed<'a>(
    command: Command,
    parsed: Result<Json, String>,
    registry: &'a Registry,
) -> (r: Result<Task<'a>, ClientError>)
    ensures
        error::outcome(r) == task(command, json::parse_outcome(parsed), *registry),
{
    match command {
        Command::Config(args) => match args.command {
            ConfigCommand::Init => Ok(Task::CreateRegistry),
            ConfigCommand::Check => Ok(Task::ReportRegistry),
        },
        Command::Connections(args) => match args.command {
            ConnectionsCommand::List => Ok(Task::ListConnections),
            ConnectionsCommand::Show(name) => {
                let (_id, config) = choose_connection(registry, name.connection.as_str())?;
                Ok(Task::ShowConnection(config))
            },
            ConnectionsCommand::Check(name) => connect_to(
                registry,
                name.connection.as_str(),
                Purpose::Report,
            ),
        },
        Command::Auth(args) => match args.command {
            AuthCommand::Login(name) => match oauth_target(registry, &name) {
                Ok(target) => Ok(Task::Login(target)),
                Err(error) => Err(error),
            },
            AuthCommand::Status(name) => match oauth_target(registry, &name) {
                Ok(target) => Ok(Task::Status(target)),
                Err(error) => Err(error),
            },
            AuthCommand::Logout(name) => match oauth_target(registry, &name) {
                Ok(target) => Ok(Task::Logout(target)),
                Err(error) => Err(error),
            },
        },
        Command::Tools(args) => match args.command {
            ToolsCommand::List(name) => connect_to(
                registry,
                name.connection.as_str(),
                Purpose::ListTools,
            ),
            ToolsCommand::Snapshot(name) => connect_to(
                registry,
                name.connection.as_str(),
                Purpose::PrintSnapshot,
            ),
            ToolsCommand::Call { connection, tool, .. } => {
                let call = tool_call_parsed(tool, parsed)?;
                connect_to(registry, connection.as_str(), Purpose::Call(call))
            },
        },
    }
}

} // verus!
