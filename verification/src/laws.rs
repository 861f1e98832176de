//! What holds of the library as a whole.

use vstd::prelude::*;
use vstd::utf8::*;

use crate::bearer;
use crate::callback;
use crate::challenge;
use crate::client;
use crate::client::{Cause, FailureClass, NegotiationFailure};
use crate::command;
use crate::connection;
use crate::connection::{CallResponse, ConnectionView, DiscoveryView, ListReply};
use crate::controlled;
use crate::endpoint::UrlView;
use crate::error::ErrorView;
use crate::headers;
use crate::json::JsonTree;
use crate::limits;
use crate::limits::{Limits, TimeSpan};
use crate::oauth;
use crate::oauth::{BoundCredentials, Claim, OAuthConfigView};
use crate::outside;
use crate::paths;
use crate::refusal;
use crate::text;
use crate::text::Class;
use crate::tools;
use crate::tools::{DescriptorView, ToolSnapshot};
use crate::transport::{HttpTransportConfig, StdioTransportConfig};

verus! {

/// A descriptor keeps the raw value that it was read from, whole, and the value was within
/// its bound.
pub proof fn law_descriptor_is_lossless(raw: JsonTree, size: nat, limits: Limits)
    ensures
        tools::read_descriptor(raw, size, limits) matches Ok(tool) ==> tool.raw == raw && size
            <= limits.max_tool_descriptor_bytes,
{
}

/// A result keeps the raw value that it was read from, whole: it is refused by the name of
/// the bound where it is larger, and is never shortened.
pub proof fn law_result_is_lossless(raw: JsonTree, size: nat, limits: Limits)
    ensures
        match tools::read_result(raw, size, limits) {
            Ok(result) => result.raw == raw && size <= limits.max_result_bytes,
            Err(error) => size > limits.max_result_bytes && error == (ErrorView::Bound {
                name: "max_result_bytes"@,
                actual: size,
                limit: limits.max_result_bytes as nat,
            }),
        },
{
}

/// Whether two values agree on the fields that a descriptor is read by.
pub open spec fn same_invocation(a: JsonTree, b: JsonTree) -> bool {
    &&& a is Object
    &&& b is Object
    &&& a.member("name"@) == b.member("name"@)
    &&& a.member("description"@) == b.member("description"@)
    &&& a.member("inputSchema"@) == b.member("inputSchema"@)
    &&& a.member("input_schema"@) == b.member("input_schema"@)
    &&& a.member("outputSchema"@) == b.member("outputSchema"@)
    &&& a.member("output_schema"@) == b.member("output_schema"@)
}

/// Annotations, and whatever else stands in a descriptor, change nothing in how it is read
/// but the raw value that is kept.
pub proof fn law_annotations_are_not_interpreted(
    a: JsonTree,
    b: JsonTree,
    a_size: nat,
    b_size: nat,
    limits: Limits,
)
    requires
        same_invocation(a, b),
        a_size <= limits.max_tool_descriptor_bytes,
        b_size <= limits.max_tool_descriptor_bytes,
    ensures
        match (
            tools::read_descriptor(a, a_size, limits),
            tools::read_descriptor(b, b_size, limits),
        ) {
            (Ok(x), Ok(y)) => x == (DescriptorView { raw: a, ..y }),
            (Err(x), Err(y)) => x == y,
            _ => false,
        },
{
}

/// What a snapshot says of its tools beyond their names changes nothing in which calls are
/// admitted and how they are sent.
pub proof fn law_descriptors_grant_nothing(
    a: ConnectionView,
    b: ConnectionView,
    name: Seq<char>,
    arguments: JsonTree,
    size: nat,
    deadline: Option<TimeSpan>,
)
    requires
        a.id == b.id,
        a.limits == b.limits,
        tools::names(a.snapshot.tools) == tools::names(b.snapshot.tools),
    ensures
        a.planned(name, arguments, size, deadline) == b.planned(name, arguments, size, deadline),
{
}

/// An admitted call names a tool of the frozen snapshot, passes on an object within its
/// bound as it is, and waits neither longer than the limit nor longer than the deadline.
pub proof fn law_admitted_calls(
    connection: ConnectionView,
    name: Seq<char>,
    arguments: JsonTree,
    size: nat,
    deadline: Option<TimeSpan>,
)
    ensures
        connection.planned(name, arguments, size, deadline) matches Ok(plan) ==> {
            &&& exists|i: int|
                0 <= i < connection.snapshot.tools.len() && (
                #[trigger] connection.snapshot.tools[i]).name == name
            &&& plan.name == name
            &&& plan.arguments == arguments
            &&& arguments is Object
            &&& size <= connection.limits.max_arguments_bytes
            &&& !connection.limits.request_timeout.shorter(plan.timeout)
            &&& deadline matches Some(remaining) ==> !remaining.shorter(plan.timeout)
        },
{
    let names = tools::names(connection.snapshot.tools);
    if names.contains(name) {
        let i = choose|i: int| 0 <= i < names.len() && names[i] == name;
        assert(connection.snapshot.tools[i].name == name);
    }
}

/// A call is admitted whenever the snapshot lists the tool and the arguments are an object
/// within its bound.
pub proof fn law_listed_tools_are_callable(
    connection: ConnectionView,
    i: int,
    arguments: JsonTree,
    size: nat,
    deadline: Option<TimeSpan>,
)
    requires
        0 <= i < connection.snapshot.tools.len(),
        arguments is Object,
        size <= connection.limits.max_arguments_bytes,
    ensures
        connection.planned(connection.snapshot.tools[i].name, arguments, size, deadline) is Ok,
{
    let names = tools::names(connection.snapshot.tools);
    assert(names[i] == connection.snapshot.tools[i].name);
}

/// A well-formed span is shorter than another exactly where its length is less.
pub proof fn law_spans_compare_by_length(a: TimeSpan, b: TimeSpan)
    requires
        a.well_formed(),
        b.well_formed(),
    ensures
        a.shorter(b) <==> a.total() < b.total(),
{
    let ghost second: int = 1_000_000_000;
    if a.secs < b.secs {
        assert((a.secs + 1) * second <= b.secs * second) by (nonlinear_arith)
            requires
                a.secs + 1 <= b.secs,
                second == 1_000_000_000,
        ;
    } else if b.secs < a.secs {
        assert((b.secs + 1) * second <= a.secs * second) by (nonlinear_arith)
            requires
                b.secs + 1 <= a.secs,
                second == 1_000_000_000,
        ;
    }
}

/// Only a complete response gives a result: whatever else a server answers is refused.
pub proof fn law_only_complete_responses_give_results(
    connection: ConnectionView,
    name: Seq<char>,
    response: CallResponse,
)
    ensures
        connection.settled(name, response) is Ok ==> response is Complete,
        response matches CallResponse::InputRequired(Ok(_)) ==> connection.settled(name, response)
            == Err::<tools::ResultView, _>(
            ErrorView::UnsupportedFeature { feature: "input-required"@ },
        ),
        response matches CallResponse::Task(Ok(_)) ==> connection.settled(name, response) == Err::<
            tools::ResultView,
            _,
        >(ErrorView::UnsupportedFeature { feature: "tasks"@ }),
{
}

/// A listing never takes more pages than its limit, whatever replies reach it.
pub proof fn law_pages_are_bounded(discovery: DiscoveryView, id: Seq<char>, reply: ListReply)
    requires
        discovery.pages <= discovery.limits.max_pages,
    ensures
        discovery.after(id, reply).pages <= discovery.after(id, reply).limits.max_pages,
        discovery.after(id, reply).limits == discovery.limits,
        DiscoveryView::started(discovery.limits).pages <= discovery.limits.max_pages,
{
}

/// A page beyond the limit is refused by the name of the bound, and a reply that is refused
/// leaves the listing as it was.
pub proof fn law_refused_replies_change_nothing(
    discovery: DiscoveryView,
    id: Seq<char>,
    reply: ListReply,
)
    ensures
        discovery.reply_outcome(id, reply) is Err ==> discovery.after(id, reply) == discovery,
        reply is Page && discovery.pages == discovery.limits.max_pages && discovery.pages
            < usize::MAX ==> discovery.reply_outcome(id, reply) == Err::<Option<Seq<char>>, _>(
            ErrorView::Bound {
                name: "max_pages"@,
                actual: discovery.pages + 1,
                limit: discovery.limits.max_pages as nat,
            },
        ),
{
}

/// Descriptors that are read keep their number, their order and their raw values.
proof fn lemma_read_in_order(listed: Seq<Result<JsonTree, Seq<char>>>, limits: Limits)
    ensures
        connection::read_all(listed, limits) matches Ok(tools) ==> {
            &&& tools.len() == listed.len()
            &&& forall|i: int|
                0 <= i < tools.len() ==> connection::read_listed(listed[i], limits) == Ok::<
                    _,
                    ErrorView,
                >(#[trigger] tools[i])
        },
    decreases listed.len(),
{
    if listed.len() > 0 {
        lemma_read_in_order(listed.drop_last(), limits);
        if let Ok(tools) = connection::read_all(listed, limits) {
            let front = tools.drop_last();
            assert(connection::read_all(listed.drop_last(), limits) == Ok::<_, ErrorView>(front)) by {
                assert(tools.drop_last() =~= connection::read_all(
                    listed.drop_last(),
                    limits,
                )->Ok_0);
            }
            assert forall|i: int| 0 <= i < tools.len() implies connection::read_listed(
                listed[i],
                limits,
            ) == Ok::<_, ErrorView>(#[trigger] tools[i]) by {
                if i < front.len() {
                    assert(front[i] == tools[i]);
                    assert(listed.drop_last()[i] == listed[i]);
                }
            }
        }
    }
}

/// A prepared connection has a bounded snapshot: the listed descriptors, each whole and
/// within its bound, in the order of the server, under distinct names, with a digest over
/// nothing but the contents.
pub proof fn law_snapshots_are_bounded_and_faithful(
    id: Seq<char>,
    version: Option<Seq<char>>,
    discovery: DiscoveryView,
)
    ensures
        connection::prepared(id, version, discovery) matches Ok(ready) ==> {
            let snapshot = ready.snapshot;
            &&& ready.id == id
            &&& snapshot.connection == id
            &&& snapshot.protocol_version == connection::negotiated(version)
            &&& snapshot.tools.len() == discovery.listed.len()
            &&& snapshot.tools.len() <= discovery.limits.max_tools
            &&& forall|i: int|
                0 <= i < snapshot.tools.len() ==> discovery.listed[i] == Ok::<_, Seq<char>>(
                    (#[trigger] snapshot.tools[i]).raw,
                ) && outside::json_bytes(snapshot.tools[i].raw).len()
                    <= discovery.limits.max_tool_descriptor_bytes
            &&& tools::names(snapshot.tools).no_duplicates()
            &&& snapshot.sha256 == tools::snapshot_digest(
                id,
                snapshot.protocol_version,
                snapshot.tools,
            )
        },
{
    lemma_read_in_order(discovery.listed, discovery.limits);
    if let Ok(ready) = connection::prepared(id, version, discovery) {
        tools::lemma_distinct(tools::names(ready.snapshot.tools));
    }
}

/// The digest of a snapshot follows from its connection, its protocol version and its tools,
/// whatever the limits were: two discoveries of one content have one digest.
pub proof fn law_snapshot_digests_follow_from_contents(
    connection: Seq<char>,
    protocol_version: Seq<char>,
    tools: Seq<DescriptorView>,
    a: Limits,
    b: Limits,
)
    requires
        tools::freeze_tools(connection, protocol_version, tools, a) is Ok,
        tools::freeze_tools(connection, protocol_version, tools, b) is Ok,
    ensures
        tools::freeze_tools(connection, protocol_version, tools, a) == tools::freeze_tools(
            connection,
            protocol_version,
            tools,
            b,
        ),
        tools::freeze_tools(connection, protocol_version, tools, a)->Ok_0.sha256
            == text::hexadecimal(
            outside::sha256_digest(
                tools::snapshot_bytes(connection, protocol_version, tools),
            ),
        ),
{
}

/// A snapshot that was frozen has a digest of sixty-four lowercase digits in base sixteen, and
/// one of the same contents has the same.
pub proof fn law_snapshot_digests_have_one_form(a: ToolSnapshot, b: ToolSnapshot)
    requires
        a.well_formed(),
        b.well_formed(),
    ensures
        a@.sha256.len() == 64,
        forall|i: int|
            0 <= i < a@.sha256.len() ==> ('0' <= #[trigger] a@.sha256[i] <= '9' || 'a'
                <= a@.sha256[i] <= 'f'),
        a@.connection == b@.connection && a@.protocol_version == b@.protocol_version && a@.tools
            == b@.tools ==> a@.sha256 == b@.sha256,
{
    text::lemma_hexadecimal(
        outside::sha256_digest(
            tools::snapshot_bytes(a@.connection, a@.protocol_version, a@.tools),
        ),
    );
}

/// A server that names no revision is spoken to at the legacy one.
pub proof fn law_legacy_is_the_fallback(version: Option<Seq<char>>)
    ensures
        version is None ==> connection::negotiated(version) == limits::LEGACY_PROTOCOL_VERSION@,
        version matches Some(named) ==> connection::negotiated(version) == named,
{
}

/// A transport that is planned goes to an endpoint that is encrypted or on this machine, and
/// that carries neither user information nor a fragment.
pub proof fn law_http_is_protected(
    config: HttpTransportConfig,
    parsed: Result<UrlView, Seq<char>>,
    bearer: Option<Seq<char>>,
    limits: Limits,
)
    ensures
        client::http_plan(config, parsed, bearer, limits) is Ok ==> {
            &&& parsed is Ok
            &&& parsed->Ok_0.scheme == "https"@ || parsed->Ok_0.scheme == "http"@
                && parsed->Ok_0.loopback()
            &&& parsed->Ok_0.username.len() == 0
            &&& parsed->Ok_0.password is None
            &&& parsed->Ok_0.fragment is None
        },
{
}

/// A child sees no variable but those that its declaration names, each under a name of
/// uppercase letters, digits and underscores, and is started by an absolute path.
pub proof fn law_children_inherit_only_what_is_named(
    config: StdioTransportConfig,
    values: Seq<Option<Vec<u8>>>,
)
    ensures
        client::launch_plan(config, values) matches Ok(plan) ==> {
            &&& paths::absolute_text(plan.program)
            &&& paths::absolute_text(plan.cwd)
            &&& forall|i: int|
                0 <= i < plan.environment.len() ==> {
                    &&& bearer::variable_name((#[trigger] plan.environment[i]).0)
                    &&& oauth::all_texts(config.inherit_env@).contains(plan.environment[i].0)
                }
        },
{
    let refusals = client::inherited_refusals(config.inherit_env@);
    refusal::lemma_first_none(refusals);
    if let Ok(plan) = client::launch_plan(config, values) {
        let texts = oauth::all_texts(config.inherit_env@);
        assert forall|i: int| 0 <= i < plan.environment.len() implies bearer::variable_name(
            (#[trigger] plan.environment[i]).0,
        ) && texts.contains(plan.environment[i].0) by {
            lemma_inherited(config.inherit_env@, values, i);
            let k = choose|k: int| 0 <= k < texts.len() && texts[k] == plan.environment[i].0;
            assert(refusals[k] is None);
        }
    }
}

/// Every inherited variable bears one of the declared names.
proof fn lemma_inherited(names: Seq<String>, values: Seq<Option<Vec<u8>>>, i: int)
    requires
        0 <= i < client::inherited(names, values).len(),
    ensures
        oauth::all_texts(names).contains(client::inherited(names, values)[i].0),
    decreases names.len(),
{
    let front = names.drop_last();
    let texts = oauth::all_texts(names);
    if i < client::inherited(front, values).len() {
        lemma_inherited(front, values, i);
        let name = client::inherited(front, values)[i].0;
        let k = choose|k: int|
            0 <= k < oauth::all_texts(front).len() && oauth::all_texts(front)[k] == name;
        assert(texts[k] == name);
    } else {
        assert(texts[names.len() - 1] == names.last()@);
    }
}

/// Declared headers are sent under lowercase names, and `authorization` is never one.
pub proof fn law_headers_carry_no_authorization(pairs: Seq<(Seq<char>, String)>)
    ensures
        headers::read_headers(pairs) matches Ok(sent) ==> {
            &&& !sent.contains_key("authorization"@)
            &&& forall|name: Seq<char>| #[trigger]
                sent.contains_key(name) ==> exists|i: int|
                    0 <= i < pairs.len() && name == text::lowered((#[trigger] pairs[i]).0)
                        && headers::header_refusal(pairs[i].0, pairs[i].1@) is None
        },
    decreases pairs.len(),
{
    if pairs.len() > 0 {
        let front = pairs.drop_last();
        law_headers_carry_no_authorization(front);
        if let Ok(sent) = headers::read_headers(pairs) {
            let before = headers::read_headers(front)->Ok_0;
            let (name, value) = pairs.last();
            assert(headers::header_refusal(name, value@) is None);
            assert(text::lowered(name) != text::lowered("authorization"@));
            lemma_authorization_is_lowercase();
            assert forall|key: Seq<char>| #[trigger] sent.contains_key(key) implies exists|i: int|
                0 <= i < pairs.len() && key == text::lowered((#[trigger] pairs[i]).0)
                    && headers::header_refusal(pairs[i].0, pairs[i].1@) is None by {
                if key == text::lowered(name) {
                    assert(pairs[pairs.len() - 1] == (name, value));
                } else {
                    assert(before.contains_key(key));
                    let i = choose|i: int|
                        0 <= i < front.len() && key == text::lowered((#[trigger] front[i]).0)
                            && headers::header_refusal(front[i].0, front[i].1@) is None;
                    assert(pairs[i] == front[i]);
                }
            }
        }
    }
}

/// The name `authorization` is in lower case.
proof fn lemma_authorization_is_lowercase()
    ensures
        text::lowered("authorization"@) == "authorization"@,
{
    reveal_strlit("authorization");
    assert(text::lowered("authorization"@) =~= "authorization"@);
}

/// An authorization configuration that is accepted asks for a resource that is encrypted or
/// on this machine, and comes back to a redirect without a fragment.
pub proof fn law_oauth_is_protected(
    config: OAuthConfigView,
    resource: Result<UrlView, Seq<char>>,
    redirect: Result<UrlView, Seq<char>>,
)
    ensures
        oauth::config_refusal(config, resource, redirect) is None ==> {
            &&& resource is Ok
            &&& resource->Ok_0.protected()
            &&& redirect is Ok
            &&& redirect->Ok_0.fragment is None
        },
{
}

/// A callback is awaited on a loopback address only, and the URL that it gives back is one
/// at that address and port.
pub proof fn law_callbacks_stay_on_loopback(parsed: Result<UrlView, Seq<char>>, request: Seq<u8>)
    ensures
        callback::callback_endpoint(parsed) matches Ok(endpoint) ==> {
            let origin = "http://"@ + endpoint.host + ":"@ + text::decimal(endpoint.port as nat);
            &&& endpoint.address.loopback()
            &&& callback::callback_url(endpoint, request) matches Ok(url) ==> origin.is_prefix_of(
                url,
            )
        },
{
    if let Ok(endpoint) = callback::callback_endpoint(parsed) {
        let origin = "http://"@ + endpoint.host + ":"@ + text::decimal(endpoint.port as nat);
        if let Ok(url) = callback::callback_url(endpoint, request) {
            assert(url.take(origin.len() as int) =~= origin);
        }
    }
}

/// A failed request is reported as one of four fixed texts, or as a wanted authorization:
/// nothing that a server said comes through but the scope.
pub proof fn law_service_reports_hold_no_prose(
    causes: Seq<Cause>,
    class: FailureClass,
    id: Seq<char>,
)
    ensures
        match client::service_report(causes, class, id) {
            ErrorView::AuthorizationRequired { connection, scope } => connection == id
                && client::asked(causes) == Some(scope),
            ErrorView::Transport(message) => client::asked(causes) is None && (message
                == "request cancelled"@ || message == "request timed out"@ || message
                == "transport closed"@ || message == "MCP request failed"@),
            _ => false,
        },
{
}

/// A failure for want of authorization, or for a scope that is no longer sufficient, is
/// reported as a wanted authorization, whatever else is in its chain of causes.
pub proof fn law_insufficient_authorization_is_reported(
    causes: Seq<Cause>,
    class: FailureClass,
    id: Seq<char>,
)
    ensures
        client::service_report(causes, class, id) is AuthorizationRequired <==> exists|i: int|
            0 <= i < causes.len() && (#[trigger] causes[i]) !is Other,
{
    lemma_first_asked(causes);
    if let Some(i) = first_named(causes) {
        assert(causes[i] !is Other);
    } else if exists|i: int| 0 <= i < causes.len() && client::insufficient(#[trigger] causes[i]) {
        let i = choose|i: int| 0 <= i < causes.len() && client::insufficient(#[trigger] causes[i]);
        assert(causes[i] !is Other);
    } else {
        assert forall|i: int| 0 <= i < causes.len() implies (#[trigger] causes[i]) is Other by {
            assert(client::authorization_asked(causes[i]) is None);
            assert(!client::insufficient(causes[i]));
        }
    }
}

/// Where the first cause stands that names an authorization.
spec fn first_named(causes: Seq<Cause>) -> Option<int>
    decreases causes.len(),
{
    if causes.len() == 0 {
        None
    } else if client::authorization_asked(causes[0]) is Some {
        Some(0)
    } else {
        match first_named(causes.skip(1)) {
            Some(i) => Some(i + 1),
            None => None,
        }
    }
}

/// A chain of causes names an authorization exactly where one of the causes does.
proof fn lemma_first_asked(causes: Seq<Cause>)
    ensures
        match first_named(causes) {
            Some(i) => 0 <= i < causes.len() && client::authorization_asked(causes[i]) is Some
                && client::first_asked(causes) is Some,
            None => client::first_asked(causes) is None && forall|i: int|
                0 <= i < causes.len() ==> client::authorization_asked(#[trigger] causes[i]) is None,
        },
    decreases causes.len(),
{
    if causes.len() > 0 {
        lemma_first_asked(causes.skip(1));
        if first_named(causes) is None {
            assert forall|i: int| 0 <= i < causes.len() implies client::authorization_asked(
                #[trigger] causes[i],
            ) is None by {
                if i > 0 {
                    assert(causes.skip(1)[i - 1] == causes[i]);
                }
            }
        }
    }
}

/// A failed negotiation is reported as one of two fixed texts, or as a wanted authorization
/// with the scope of the challenge.
pub proof fn law_negotiation_reports_hold_no_prose(id: Seq<char>, failure: NegotiationFailure)
    ensures
        match client::negotiation_report(id, failure) {
            ErrorView::AuthorizationRequired { connection, scope } => connection == id && (scope
                matches Some(wanted) ==> failure matches NegotiationFailure::AuthorizationRequired {
                challenge: Some(challenge),
            } && challenge::scope_asked(challenge@) == Some(wanted)),
            ErrorView::Transport(message) => message == "MCP lifecycle negotiation timed out"@
                || message == "MCP lifecycle negotiation failed"@,
            _ => false,
        },
{
}

/// What is reported of a connection's authorization does not depend on the access token.
pub proof fn law_status_hides_the_token(id: Seq<char>, a: Seq<char>, b: Seq<char>)
    ensures
        command::status_report(id, Ok(a)) == command::status_report(id, Ok(b)),
{
}

/// A source that is refused gives away nothing of a secret: the only value that is refused
/// is the empty one.
pub proof fn law_refused_sources_hide_the_secret(
    name: Seq<char>,
    pointer: Seq<char>,
    secret: Seq<char>,
)
    requires
        secret.len() > 0,
    ensures
        bearer::variable_secret(name, Some(secret)) == Ok::<_, ErrorView>(secret),
        bearer::file_secret(pointer, Some(Some(secret))) == Ok::<_, ErrorView>(secret),
{
}

/// Stored credentials come back for the resource that they were bound to, and for no other:
/// there they are to be deleted.
pub proof fn law_credentials_are_bound_to_their_resource<T>(
    bound: BoundCredentials<T>,
    resource: Seq<char>,
)
    ensures
        oauth::claimed(resource, Some(Some(bound))) == if resource == bound.resource@ {
            Ok::<_, Seq<char>>(Claim::Own(bound.credentials))
        } else {
            Ok(Claim::Foreign)
        },
{
}

/// A failure that asks for authorization names the connection that it is rebound to and
/// keeps its scope; every other failure stays as it is; and the last rebinding counts.
pub proof fn law_rebinding_names_the_connection(error: ErrorView, a: Seq<char>, b: Seq<char>)
    ensures
        match error {
            ErrorView::AuthorizationRequired { scope, .. } => command::rebound(error, a)
                == (ErrorView::AuthorizationRequired { connection: a, scope }),
            _ => command::rebound(error, a) == error,
        },
        command::rebound(command::rebound(error, a), b) == command::rebound(error, b),
{
}

/// A controlled server writes nothing back to a notification, and answers a request under
/// the identifier that the request bears.
pub proof fn law_controlled_answers_bear_the_identifier(request: Seq<char>)
    ensures
        match controlled::request_id(request) {
            None => controlled::answer(request) is None,
            Some(id) => {
                &&& controlled::answer(request) is Some
                &&& ("{\"jsonrpc\":\"2.0\",\"id\":"@ + id).is_prefix_of(
                    controlled::answer(request)->0,
                )
            },
        },
{
    if let Some(id) = controlled::request_id(request) {
        let head = "{\"jsonrpc\":\"2.0\",\"id\":"@ + id;
        assert(controlled::answer(request)->0.take(head.len() as int) =~= head);
    }
}

/// A controlled server answers only a message that has an identifier of its own: one that
/// stands deeper, among the parameters of a notification, or in a string, is none.
pub proof fn law_controlled_answers_are_owed_to_own_identifiers(request: Seq<char>)
    ensures
        controlled::answer(request) is Some ==> exists|i: int|
            controlled::own_key(request, "\"id\""@, i),
{
    let key = "\"id\""@;
    assert(controlled::place_at(request, 0) == controlled::Place::outset());
    controlled::lemma_member_start(request, key, 0);
    if controlled::answer(request) is Some {
        let i = choose|i: int| 0 <= i && controlled::own_key(request, key, i);
        assert(controlled::own_key(request, key, i));
    }
}

/// A controlled server answers a request by the method of the message itself, and refuses one
/// that has none, whatever stands deeper or in a string.
pub proof fn law_controlled_answers_follow_the_own_method(request: Seq<char>)
    requires
        controlled::request_id(request) is Some,
    ensures
        ({
            let method = controlled::own_member(request, "\"method\""@);
            let head = "{\"jsonrpc\":\"2.0\",\"id\":"@ + controlled::request_id(request)->0;
            &&& controlled::answer(request) == Some(head + controlled::method_tail(method))
            &&& (forall|i: int| !controlled::own_key(request, "\"method\""@, i))
                ==> controlled::answer(request) == Some(head + controlled::REFUSED@)
        }),
{
    assert(controlled::place_at(request, 0) == controlled::Place::outset());
    controlled::lemma_member_start(request, "\"method\""@, 0);
}

/// A controlled server answers a request with the same document on every transport.
pub proof fn law_controlled_answers_agree_on_transports(request: Seq<char>)
    ensures
        controlled::http_answer("POST"@, request) == match controlled::answer(request) {
            Some(body) => Some(("200 OK"@, body)),
            None => Some(("202 Accepted"@, ""@)),
        },
{
    reveal_strlit("POST");
    reveal_strlit("GET");
    reveal_strlit("DELETE");
    assert("POST"@.len() != "GET"@.len());
    assert("POST"@.len() != "DELETE"@.len());
}

/// Nothing that a challenge quotes under another name becomes its scope: what is found is what
/// the parameters after it give.
pub proof fn law_quoted_words_are_no_scope(name: Seq<char>, value: Seq<char>, rest: Seq<char>)
    requires
        !name.contains(',') && !name.contains('=') && !name.contains('"'),
        text::lowered(challenge::last_word(name)) != text::lowered("scope"@),
        !value.contains('"') && !value.contains('\\'),
    ensures
        challenge::scope_asked(name + "=\""@ + value + "\","@ + rest) == challenge::scope_asked(
            rest,
        ),
{
    reveal_strlit("=\"");
    reveal_strlit("\",");
    let h = name.len() as int;
    let head = name + "=\""@ + value + "\","@;
    let whole = head + rest;
    let to = head.len() - 1;
    assert(whole =~= name + "=\""@ + value + "\","@ + rest);
    assert forall|i: int| 0 <= i < h + 1 implies (#[trigger] whole[i]) != '"' && whole[i] != ',' by {
        if i < h {
            assert(whole[i] == name[i]);
        }
    }
    challenge::lemma_plain_run(whole, 0, h + 1, false);
    assert forall|i: int| h + 2 <= i < to - 1 implies (#[trigger] whole[i]) != '"' && whole[i]
        != '\\' by {
        assert(whole[i] == value[i - h - 2]);
    }
    assert(whole[h + 1] == '"' && whole[to - 1] == '"' && whole[to] == ',');
    challenge::lemma_quoted_run(whole, h + 1, to - 1);
    assert(challenge::parameter_end(whole, 0, false, false) == to);
    let parameter = whole.subrange(0, to);
    reveal_strlit("\"");
    lemma_other_name(name, "\""@ + value + "\""@);
    assert(parameter =~= name + seq!['='] + ("\""@ + value + "\""@));
    challenge::lemma_scope_from(head, rest, 0);
}

/// A parameter under another name names no scope.
proof fn lemma_other_name(name: Seq<char>, value: Seq<char>)
    requires
        !name.contains('='),
        value.len() > 0,
        !text::white_space(value.last()),
        text::lowered(challenge::last_word(name)) != text::lowered("scope"@),
    ensures
        challenge::parameter_scope(name + seq!['='] + value) is None,
{
    let whole = name + seq!['='] + value;
    let n = text::leading(name, Class::Space);
    text::lemma_leading_bounds(name, Class::Space);
    assert forall|i: int| 0 <= i < n implies Class::Space.holds(#[trigger] whole[i]) by {
        assert(whole[i] == name[i]);
    }
    if n < name.len() {
        assert(whole[n] == name[n]);
    }
    text::lemma_leading(whole, Class::Space, n);
    let tail = whole.skip(n);
    assert(tail.last() == value.last());
    text::lemma_trailing(tail, Class::Space, 0);
    assert(tail.take(tail.len() as int) =~= tail);
    let shown = name.skip(n);
    text::lemma_leading(shown, Class::Space, 0);
    assert(shown.skip(0) =~= shown);
    assert(tail =~= shown + seq!['='] + value);
    assert forall|i: int| 0 <= i < shown.len() implies Class::Except('=').holds(
        #[trigger] tail[i],
    ) by {
        assert(tail[i] == name[n + i]);
    }
    text::lemma_leading(tail, Class::Except('='), shown.len() as int);
    assert(tail.take(shown.len() as int) =~= shown);
}

/// A scope that a challenge quotes comes back as it is, whether the scheme of the challenge
/// stands before it or nothing does.
pub proof fn law_quoted_scopes_come_back(scheme: Seq<char>, scope: Seq<char>)
    requires
        !scheme.contains(',') && !scheme.contains('='),
        scope.contains(',') ==> !scheme.contains('"') && !scope.contains('"') && !scope.contains(
            '\\',
        ),
        scheme.len() > 0 ==> text::white_space(scheme.last()),
        scope.len() > 0 ==> scope[0] != '"' && scope.last() != '"',
    ensures
        challenge::scope_asked(scheme + "scope=\""@ + scope + "\""@) == Some(scope),
{
    reveal_strlit("scope=\"");
    reveal_strlit("\"");
    let h = scheme.len() as int;
    let whole = scheme + "scope=\""@ + scope + "\""@;
    let n = whole.len() as int;
    if scope.contains(',') {
        assert forall|i: int| 0 <= i < h + 6 implies (#[trigger] whole[i]) != '"' && whole[i]
            != ',' by {
            if i < h {
                assert(whole[i] == scheme[i]);
            }
        }
        challenge::lemma_plain_run(whole, 0, h + 6, false);
        assert forall|i: int| h + 6 < i < n - 1 implies (#[trigger] whole[i]) != '"' && whole[i]
            != '\\' by {
            assert(whole[i] == scope[i - h - 7]);
        }
        assert(whole[h + 6] == '"' && whole[n - 1] == '"');
        challenge::lemma_quoted_run(whole, h + 6, n - 1);
        assert(challenge::parameter_end(whole, n, false, false) == n);
    } else {
        assert forall|i: int| 0 <= i < n implies (#[trigger] whole[i]) != ',' by {
            if i < h {
                assert(whole[i] == scheme[i]);
            } else if h + 7 <= i < n - 1 {
                assert(whole[i] == scope[i - h - 7]);
            }
        }
        challenge::lemma_one_parameter(whole, 0, false, false);
    }
    assert(whole.subrange(0, n) =~= whole);
    let spaces = text::leading(scheme, Class::Space);
    text::lemma_leading_bounds(scheme, Class::Space);
    let shown = scheme.skip(spaces);
    let parameter = shown + "scope=\""@ + scope + "\""@;
    assert(scheme.take(spaces) + parameter =~= whole);
    lemma_space_before(scheme.take(spaces), parameter);
    lemma_quoted_scope(shown, scope);
}

/// White space before a parameter changes nothing of it.
proof fn lemma_space_before(space: Seq<char>, parameter: Seq<char>)
    requires
        forall|i: int| 0 <= i < space.len() ==> text::white_space(#[trigger] space[i]),
    ensures
        challenge::parameter_scope(space + parameter) == challenge::parameter_scope(parameter),
{
    let whole = space + parameter;
    let n = text::leading(parameter, Class::Space);
    text::lemma_leading_bounds(parameter, Class::Space);
    assert forall|i: int| 0 <= i < space.len() + n implies Class::Space.holds(#[trigger] whole[i]) by {
        if i < space.len() {
            assert(whole[i] == space[i]);
        } else {
            assert(whole[i] == parameter[i - space.len()]);
        }
    }
    text::lemma_leading(whole, Class::Space, space.len() + n);
    assert(whole.skip(space.len() + n) =~= parameter.skip(n));
}

/// A parameter that quotes a scope names it.
proof fn lemma_quoted_scope(scheme: Seq<char>, scope: Seq<char>)
    requires
        !scheme.contains('='),
        scheme.len() > 0 ==> !text::white_space(scheme[0]) && text::white_space(scheme.last()),
        scope.len() > 0 ==> scope[0] != '"' && scope.last() != '"',
    ensures
        challenge::parameter_scope(scheme + "scope=\""@ + scope + "\""@) == Some(scope),
{
    reveal_strlit("scope=\"");
    reveal_strlit("\"");
    reveal_strlit("scope");
    let h = scheme.len() as int;
    let whole = scheme + "scope=\""@ + scope + "\""@;
    let n = whole.len() as int;
    if h > 0 {
        assert(whole[0] == scheme[0]);
    }
    text::lemma_leading(whole, Class::Space, 0);
    assert(whole.skip(0) =~= whole);
    text::lemma_trailing(whole, Class::Space, 0);
    assert(whole.take(n) =~= whole);
    assert forall|i: int| 0 <= i < h + 5 implies Class::Except('=').holds(#[trigger] whole[i]) by {
        if i < h {
            assert(whole[i] == scheme[i]);
        }
    }
    text::lemma_leading(whole, Class::Except('='), h + 5);
    let name = whole.take(h + 5);
    assert(name =~= scheme + "scope"@);
    text::lemma_leading(name, Class::Space, 0);
    assert(name.skip(0) =~= name);
    text::lemma_trailing(name, Class::Space, 0);
    assert(name.take(h + 5) =~= name);
    if h > 0 {
        assert(name[h - 1] == scheme.last());
    }
    text::lemma_trailing(name, Class::Solid, 5);
    assert(name.skip(h) =~= "scope"@);
    let value = whole.skip(h + 6);
    let m = value.len() as int;
    assert(value =~= "\""@ + scope + "\""@);
    text::lemma_leading(value, Class::Space, 0);
    assert(value.skip(0) =~= value);
    text::lemma_trailing(value, Class::Space, 0);
    assert(value.take(m) =~= value);
    if scope.len() > 0 {
        assert(value[1] == scope[0]);
        text::lemma_leading(value, Class::Only('"'), 1);
        let tail = value.skip(1);
        assert(tail =~= scope + "\""@);
        assert(tail[tail.len() - 2] == scope.last());
        text::lemma_trailing(tail, Class::Only('"'), 1);
        assert(tail.take(tail.len() - 1) =~= scope);
    } else {
        text::lemma_leading(value, Class::Only('"'), 2);
        let tail = value.skip(2);
        assert(tail =~= scope);
        text::lemma_trailing(tail, Class::Only('"'), 0);
        assert(tail.take(0) =~= scope);
    }
}

} // verus!
