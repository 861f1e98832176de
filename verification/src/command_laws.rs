//! What commands owe to the arguments that they are given.

use vstd::prelude::*;

use crate::bearer;
use crate::command;
use crate::command::{
    AuthArgs, AuthCommand, Command, ConfigArgs, ConfigCommand, ConnectionName, ConnectionsArgs,
    ConnectionsCommand, InitEvent, InitStep, PurposeView, TargetView, Task, TaskView, ToolsArgs,
    ToolsCommand,
};
use crate::error::{ClientError, ErrorView};
use crate::identity;
use crate::json::JsonTree;
use crate::outside;
use crate::registry::{ConnectionConfig, HttpAuth, Registry};

verus! {

/// Whether a registry declares a connection by a name that is one.
pub open spec fn declares(registry: Registry, name: Seq<char>) -> bool {
    identity::connection_name(name) && registry.connections@.contains_key(name)
}

/// A `tools call` command connects to the named connection and calls the named tool there with
/// exactly the arguments that its text spells. It is refused only where the text spells no
/// value or the connection is not declared.
pub proof fn law_tool_calls_pass_their_arguments(
    registry: Registry,
    connection: String,
    tool: String,
    arguments: String,
)
    ensures
        ({
            let command = Command::Tools(
                ToolsArgs { command: ToolsCommand::Call { connection, tool, arguments } },
            );
            let parsed = outside::json_text(arguments@);
            &&& command::arguments_of(command) == arguments@
            &&& match command::task(command, parsed, registry) {
                Ok(TaskView::Connect { id, config, purpose }) => {
                    &&& parsed is Ok
                    &&& declares(registry, connection@)
                    &&& id == connection@
                    &&& config == registry.connections@[connection@]
                    &&& purpose is Call
                    &&& purpose->name == tool@
                    &&& purpose->arguments == parsed->Ok_0
                },
                Ok(_) => false,
                Err(error) => error is Configuration && (parsed is Err || !declares(
                    registry,
                    connection@,
                )),
            }
        }),
{
}

/// A command that calls no tool has an empty object for arguments, and what becomes of it does
/// not depend on them.
pub proof fn law_other_commands_have_no_arguments(
    registry: Registry,
    command: Command,
    one: Result<JsonTree, Seq<char>>,
    other: Result<JsonTree, Seq<char>>,
)
    requires
        !(command matches Command::Tools(args) && args.command is Call),
    ensures
        command::arguments_of(command) == "{}"@,
        command::task(command, one, registry) == command::task(command, other, registry),
{
}

/// What text spells is what is called, whatever it spells.
pub proof fn law_requested_calls_are_what_was_asked(
    tool: Seq<char>,
    parsed: Result<JsonTree, Seq<char>>,
)
    ensures
        match (command::requested_call(tool, parsed), parsed) {
            (Ok((name, arguments)), Ok(spelled)) => name == tool && arguments == spelled,
            (Err(error), Err(reason)) => error == ErrorView::Configuration(
                "invalid arguments: "@ + reason,
            ),
            _ => false,
        },
{
}

/// A command that connects goes to the connection that it names, as that is declared, for the
/// purpose that it has, exactly where the connection is declared.
pub proof fn law_commands_connect_to_what_they_name(
    registry: Registry,
    name: ConnectionName,
    parsed: Result<JsonTree, Seq<char>>,
    which: nat,
)
    requires
        which < 3,
    ensures
        ({
            let command = if which == 0 {
                Command::Connections(
                    ConnectionsArgs { command: ConnectionsCommand::Check(name) },
                )
            } else if which == 1 {
                Command::Tools(ToolsArgs { command: ToolsCommand::List(name) })
            } else {
                Command::Tools(ToolsArgs { command: ToolsCommand::Snapshot(name) })
            };
            match command::task(command, parsed, registry) {
                Ok(TaskView::Connect { id, config, purpose }) => {
                    &&& declares(registry, name.connection@)
                    &&& id == name.connection@
                    &&& config == registry.connections@[name.connection@]
                    &&& which == 0 <==> purpose is Report
                    &&& which == 1 <==> purpose is ListTools
                    &&& which == 2 <==> purpose is PrintSnapshot
                },
                Ok(_) => false,
                Err(error) => error is Configuration && !declares(registry, name.connection@),
            }
        }),
{
}

/// A command on a connection is refused for its name where that is none, and otherwise by the
/// name that no connection has.
pub proof fn law_unknown_connections_are_named(registry: Registry, name: Seq<char>)
    ensures
        match command::choice_refusal(registry, name) {
            None => declares(registry, name),
            Some(error) => {
                ||| !identity::connection_name(name) && error == ErrorView::Configuration(
                    "connection id must match [a-z0-9_]{1,64}"@,
                )
                ||| identity::connection_name(name) && !registry.connections@.contains_key(name)
                    && error == ErrorView::Configuration("unknown MCP connection `"@ + name + "`"@)
            },
        },
        declares(registry, name) && !has_flow(registry, name) ==> command::target_refusal(
            registry,
            name,
        ) == Some(
            ErrorView::Configuration(
                match registry.connections@[name] {
                    ConnectionConfig::Stdio { .. } => "connection `"@ + name
                        + "` uses stdio and has no HTTP OAuth flow"@,
                    ConnectionConfig::Http { .. } => "connection `"@ + name
                        + "` is not configured for OAuth"@,
                },
            ),
        ),
        !declares(registry, name) ==> command::target_refusal(registry, name)
            == command::choice_refusal(registry, name),
{
}

/// A command that shows a connection shows it as it is declared, and one on the registry needs
/// no connection.
pub proof fn law_commands_show_what_is_declared(
    registry: Registry,
    name: ConnectionName,
    parsed: Result<JsonTree, Seq<char>>,
)
    ensures
        match command::task(
            Command::Connections(ConnectionsArgs { command: ConnectionsCommand::Show(name) }),
            parsed,
            registry,
        ) {
            Ok(TaskView::ShowConnection(config)) => declares(registry, name.connection@) && config
                == registry.connections@[name.connection@],
            Ok(_) => false,
            Err(error) => error is Configuration && !declares(registry, name.connection@),
        },
        command::task(
            Command::Connections(ConnectionsArgs { command: ConnectionsCommand::List }),
            parsed,
            registry,
        ) == Ok::<_, ErrorView>(TaskView::ListConnections),
        command::task(
            Command::Config(ConfigArgs { command: ConfigCommand::Init }),
            parsed,
            registry,
        ) == Ok::<_, ErrorView>(TaskView::CreateRegistry),
        command::task(
            Command::Config(ConfigArgs { command: ConfigCommand::Check }),
            parsed,
            registry,
        ) == Ok::<_, ErrorView>(TaskView::ReportRegistry),
{
}

/// Whether a registry declares a connection with an OAuth flow.
pub open spec fn has_flow(registry: Registry, name: Seq<char>) -> bool {
    declares(registry, name) && match registry.connections@[name] {
        ConnectionConfig::Http { auth, .. } => auth is OAuth,
        ConnectionConfig::Stdio { .. } => false,
    }
}

/// Whether a target is the OAuth flow that a registry declares under a name.
pub open spec fn is_flow(registry: Registry, name: Seq<char>, target: TargetView) -> bool {
    target.id == name && match registry.connections@[name] {
        ConnectionConfig::Http { auth: HttpAuth::OAuth { config, client_secret }, .. } => {
            target.config == config && target.client_secret == client_secret
        },
        _ => false,
    }
}

/// A command on authorization is about the flow of the connection that it names, as that is
/// declared, exactly where the connection has one, and does what it is called.
pub proof fn law_authorization_commands_are_about_the_named_flow(
    registry: Registry,
    name: ConnectionName,
    parsed: Result<JsonTree, Seq<char>>,
)
    ensures
        match command::task(
            Command::Auth(AuthArgs { command: AuthCommand::Login(name) }),
            parsed,
            registry,
        ) {
            Ok(TaskView::Login(target)) => has_flow(registry, name.connection@) && is_flow(
                registry,
                name.connection@,
                target,
            ),
            Ok(_) => false,
            Err(error) => error is Configuration && !has_flow(registry, name.connection@),
        },
        match command::task(
            Command::Auth(AuthArgs { command: AuthCommand::Status(name) }),
            parsed,
            registry,
        ) {
            Ok(TaskView::Status(target)) => has_flow(registry, name.connection@) && is_flow(
                registry,
                name.connection@,
                target,
            ),
            Ok(_) => false,
            Err(error) => error is Configuration && !has_flow(registry, name.connection@),
        },
        match command::task(
            Command::Auth(AuthArgs { command: AuthCommand::Logout(name) }),
            parsed,
            registry,
        ) {
            Ok(TaskView::Logout(target)) => has_flow(registry, name.connection@) && is_flow(
                registry,
                name.connection@,
                target,
            ),
            Ok(_) => false,
            Err(error) => error is Configuration && !has_flow(registry, name.connection@),
        },
        command::target_refusal(registry, name.connection@) is None <==> has_flow(
            registry,
            name.connection@,
        ),
        has_flow(registry, name.connection@) ==> is_flow(
            registry,
            name.connection@,
            command::target_of(registry, name.connection@),
        ),
{
}

/// A connection is reported as authorized exactly where there is a token, as wanting
/// authorization exactly where that is what failed, and by the failure otherwise.
pub proof fn law_status_follows_the_token(id: Seq<char>, token: Result<Seq<char>, ErrorView>)
    ensures
        match command::status_report(id, token) {
            Ok(line) => {
                ||| token is Ok && line == "authorized "@ + id
                ||| token is Err && token->Err_0 is AuthorizationRequired && line
                    == "authorization-required "@ + id
            },
            Err(error) => token is Err && token->Err_0 !is AuthorizationRequired && error
                == token->Err_0,
        },
{
}

/// The creation of a registry goes on by what was found and done, step by step, and ends at the
/// first failure.
pub proof fn law_creation_goes_step_by_step(reason: String)
    ensures
        command::init_outcome(InitStep::Probe, InitEvent::Probed(false)) == Ok::<_, ErrorView>(
            InitStep::CreateDirectory,
        ),
        command::init_outcome(InitStep::CreateDirectory, InitEvent::Finished) == Ok::<
            _,
            ErrorView,
        >(InitStep::Write),
        command::init_outcome(InitStep::Write, InitEvent::Finished) == Ok::<_, ErrorView>(
            InitStep::Done,
        ),
        command::init_outcome(InitStep::Probe, InitEvent::Probed(true)) == Err::<InitStep, _>(
            ErrorView::Configuration("registry already exists"@),
        ),
        command::init_outcome(InitStep::Probe, InitEvent::Failed(reason)) == Err::<InitStep, _>(
            ErrorView::Configuration("checking registry: "@ + reason@),
        ),
        command::init_outcome(InitStep::CreateDirectory, InitEvent::Failed(reason)) == Err::<
            InitStep,
            _,
        >(ErrorView::Configuration("creating registry directory: "@ + reason@)),
        command::init_outcome(InitStep::Write, InitEvent::Failed(reason)) == Err::<InitStep, _>(
            ErrorView::Configuration("writing registry: "@ + reason@),
        ),
{
}

/// A variable gives its value as the secret exactly where it is set to something.
pub proof fn law_variables_give_their_value(name: Seq<char>, value: Option<Seq<char>>)
    ensures
        match bearer::variable_secret(name, value) {
            Ok(secret) => value == Some(secret) && secret.len() > 0,
            Err(error) => {
                ||| value is None && error == ErrorView::Configuration(
                    "credential environment `"@ + name + "` is absent"@,
                )
                ||| value is Some && value->0.len() == 0 && error == ErrorView::Configuration(
                    "credential environment `"@ + name + "` is empty"@,
                )
            },
        },
{
}

/// A file gives as the secret the string that the pointer selects in its document, exactly
/// where it is a document and the string is not empty.
pub proof fn law_files_give_the_selected_string(bytes: Vec<u8>, pointer: Seq<char>, reason: String)
    ensures
        match bearer::resolved_file(pointer, Ok(bytes)) {
            Ok(secret) => {
                &&& outside::json_document(bytes@) is Some
                &&& outside::json_at(outside::json_document(bytes@)->0, pointer) == Some(
                    JsonTree::Text(secret),
                )
                &&& secret.len() > 0
            },
            Err(error) => {
                &&& error is Configuration
                &&& outside::json_document(bytes@) is None || match outside::json_at(
                    outside::json_document(bytes@)->0,
                    pointer,
                ) {
                    Some(JsonTree::Text(secret)) => secret.len() == 0,
                    _ => true,
                }
            },
        },
        bearer::resolved_file(pointer, Err(reason)) == Err::<Seq<char>, _>(
            ErrorView::Configuration("reading credential JSON file: "@ + reason@),
        ),
{
}

/// A failure is told by its class and its own words, and nothing else.
pub proof fn law_failures_are_told_in_full(error: ErrorView)
    ensures
        match error {
            ErrorView::Configuration(message) => error.text() == "configuration: "@ + message,
            ErrorView::Protocol(message) => error.text() == "protocol: "@ + message,
            ErrorView::Transport(message) => error.text() == "transport: "@ + message,
            ErrorView::AuthorizationRequired { connection, scope: Some(scope) } => error.text()
                == "authorization required for `"@ + connection + "`"@ + (" with scope `"@ + scope
                + "`"@),
            ErrorView::AuthorizationRequired { connection, scope: None } => error.text()
                == "authorization required for `"@ + connection + "`"@,
            ErrorView::UnsupportedFeature { feature } => error.text()
                == "unsupported MCP feature `"@ + feature + "`"@,
            ErrorView::Cancelled => error.text() == "cancelled"@,
            ErrorView::Bound { name, actual, limit } => ("bound `"@ + name + "`: "@).is_prefix_of(
                error.text(),
            ),
        },
{
    match error {
        ErrorView::AuthorizationRequired { connection, scope: Some(scope) } => {
            assert(error.text() =~= "authorization required for `"@ + connection + "`"@ + (
            " with scope `"@ + scope + "`"@));
        },
        ErrorView::Bound { name, actual, limit } => {
            let head = "bound `"@ + name + "`: "@;
            assert(error.text().take(head.len() as int) =~= head);
        },
        _ => {},
    }
}

/// The contents of failures and tasks are those of their fields, each of them.
pub proof fn law_failure_contents_are_their_fields(error: ClientError, task: Task<'_>)
    ensures
        match error {
            ClientError::Configuration(message) => error@ == ErrorView::Configuration(message@),
            ClientError::Protocol(message) => error@ == ErrorView::Protocol(message@),
            ClientError::Transport(message) => error@ == ErrorView::Transport(message@),
            ClientError::Bound { name, actual, limit } => error@ == (ErrorView::Bound {
                name: name@,
                actual: actual as nat,
                limit: limit as nat,
            }),
            ClientError::AuthorizationRequired { connection, scope } => match error@ {
                ErrorView::AuthorizationRequired { connection: id, scope: wanted } => {
                    &&& id == connection@
                    &&& wanted is Some <==> scope is Some
                    &&& scope is Some ==> wanted->0 == scope->0@
                },
                _ => false,
            },
            ClientError::UnsupportedFeature { feature } => error@ == (
            ErrorView::UnsupportedFeature { feature: feature@ }),
            ClientError::Cancelled => error@ is Cancelled,
        },
        match task {
            Task::CreateRegistry => task@ is CreateRegistry,
            Task::ReportRegistry => task@ is ReportRegistry,
            Task::ListConnections => task@ is ListConnections,
            Task::ShowConnection(config) => task@ == TaskView::ShowConnection(*config),
            Task::Connect { id, config, purpose } => match task@ {
                TaskView::Connect { id: name, config: declared, purpose: what } => {
                    &&& name == id@
                    &&& declared == *config
                    &&& purpose is Report <==> what is Report
                    &&& purpose is ListTools <==> what is ListTools
                    &&& purpose is PrintSnapshot <==> what is PrintSnapshot
                    &&& purpose matches command::Purpose::Call(call) ==> what == (
                    PurposeView::Call { name: call.name@, arguments: call.arguments@ })
                },
                _ => false,
            },
            Task::Status(target) => task@ is Status && task@->Status_0.id == target.id@
                && task@->Status_0.config == *target.config && task@->Status_0.client_secret
                == *target.client_secret,
            Task::Logout(target) => task@ is Logout && task@->Logout_0.id == target.id@
                && task@->Logout_0.config == *target.config && task@->Logout_0.client_secret
                == *target.client_secret,
            Task::Login(target) => task@ is Login && task@->Login_0.id == target.id@
                && task@->Login_0.config == *target.config && task@->Login_0.client_secret
                == *target.client_secret,
        },
{
}

} // verus!
