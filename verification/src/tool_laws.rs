//! What tools, snapshots, calls and results owe to the values that they come from.

use vstd::prelude::*;

use crate::client;
use crate::connection;
use crate::connection::{CallPlan, CallPlanView, CallResponse, Cleanup, ConnectionView, DiscoveryView, ListReply};
use crate::error::ErrorView;
use crate::json::{Json, JsonTree};
use crate::limits;
use crate::limits::{Limits, TimeSpan};
use crate::outside;
use crate::tools;
use crate::tools::{DescriptorView, ResultView, SnapshotView, ToolDescriptor, ToolResult, ToolSnapshot};

verus! {

/// What an object holds under a key, or under another where it lacks the first.
pub open spec fn held(
    members: Map<Seq<char>, JsonTree>,
    key: Seq<char>,
    other: Seq<char>,
) -> Option<JsonTree> {
    if members.contains_key(key) {
        Some(members[key])
    } else if members.contains_key(other) {
        Some(members[other])
    } else {
        None
    }
}

/// The text that an object holds under a key.
pub open spec fn held_text(members: Map<Seq<char>, JsonTree>, key: Seq<char>) -> Option<Seq<char>> {
    if members.contains_key(key) && members[key] is Text {
        Some(members[key]->Text_0)
    } else {
        None
    }
}

/// A descriptor is what its object declares: the name, the description and both schemas are
/// the members under those names, whole, and the object itself is kept. It is refused only
/// for its size, for want of a name or for want of a schema that is an object.
pub proof fn law_descriptors_are_what_was_declared(
    members: Map<Seq<char>, JsonTree>,
    size: nat,
    limits: Limits,
)
    ensures
        match tools::read_descriptor(JsonTree::Object(members), size, limits) {
            Ok(tool) => {
                &&& size <= limits.max_tool_descriptor_bytes
                &&& held_text(members, "name"@) == Some(tool.name)
                &&& tool.name.len() > 0
                &&& tool.description == held_text(members, "description"@)
                &&& held(members, "inputSchema"@, "input_schema"@) == Some(tool.input_schema)
                &&& tool.input_schema is Object
                &&& tool.output_schema == held(members, "outputSchema"@, "output_schema"@)
                &&& tool.raw == JsonTree::Object(members)
            },
            Err(error) => {
                ||| size > limits.max_tool_descriptor_bytes && error == (ErrorView::Bound {
                    name: "max_tool_descriptor_bytes"@,
                    actual: size,
                    limit: limits.max_tool_descriptor_bytes as nat,
                })
                ||| size <= limits.max_tool_descriptor_bytes && error is Protocol && (held_text(
                    members,
                    "name"@,
                ) is None || held_text(members, "name"@)->0.len() == 0 || held(
                    members,
                    "inputSchema"@,
                    "input_schema"@,
                ) is None || held(members, "inputSchema"@, "input_schema"@)->0 !is Object)
            },
        },
{
}

/// A descriptor is refused for the first that is wrong with it, by name: its size, its shape,
/// its name, its schema.
pub proof fn law_descriptors_are_refused_by_what_is_wrong(
    members: Map<Seq<char>, JsonTree>,
    raw: JsonTree,
    size: nat,
    limits: Limits,
)
    requires
        size <= limits.max_tool_descriptor_bytes,
    ensures
        raw !is Object ==> tools::read_descriptor(raw, size, limits) == Err::<DescriptorView, _>(
            ErrorView::Protocol("tool descriptor is not a JSON object"@),
        ),
        ({
            let read = tools::read_descriptor(JsonTree::Object(members), size, limits);
            let name = held_text(members, "name"@);
            let schema = held(members, "inputSchema"@, "input_schema"@);
            if name is None || name->0.len() == 0 {
                read == Err::<DescriptorView, _>(
                    ErrorView::Protocol("tool descriptor has no name"@),
                )
            } else if schema is None {
                read == Err::<DescriptorView, _>(
                    ErrorView::Protocol("tool `"@ + name->0 + "` has no input schema"@),
                )
            } else if schema->0 !is Object {
                read == Err::<DescriptorView, _>(
                    ErrorView::Protocol("tool `"@ + name->0 + "` input schema is not an object"@),
                )
            } else {
                read is Ok
            }
        }),
{
}

/// Nothing but an object is a descriptor.
pub proof fn law_only_objects_are_descriptors(raw: JsonTree, size: nat, limits: Limits)
    ensures
        tools::read_descriptor(raw, size, limits) is Ok ==> raw is Object,
{
}

/// A result within its bound is kept whole, and is a failure exactly where the marker of one
/// is true, whatever else it holds.
pub proof fn law_failure_markers_are_reported(raw: JsonTree, size: nat, limits: Limits)
    requires
        size <= limits.max_result_bytes,
    ensures
        tools::read_result(raw, size, limits) matches Ok(result) && result.raw == raw && (
        result.is_error <==> raw is Object && held(
            raw->Object_0,
            "isError"@,
            "is_error"@,
        ) == Some(JsonTree::Bool(true))),
{
}

/// Two results that agree on their markers are failures both or neither.
pub proof fn law_failures_rest_on_their_marker(
    a: Map<Seq<char>, JsonTree>,
    b: Map<Seq<char>, JsonTree>,
    a_size: nat,
    b_size: nat,
    limits: Limits,
)
    requires
        a_size <= limits.max_result_bytes,
        b_size <= limits.max_result_bytes,
        a.contains_key("isError"@) == b.contains_key("isError"@),
        a.contains_key("isError"@) ==> a["isError"@] == b["isError"@],
        a.contains_key("is_error"@) == b.contains_key("is_error"@),
        a.contains_key("is_error"@) ==> a["is_error"@] == b["is_error"@],
    ensures
        tools::read_result(JsonTree::Object(a), a_size, limits) is Ok,
        tools::read_result(JsonTree::Object(b), b_size, limits) is Ok,
        tools::read_result(JsonTree::Object(a), a_size, limits)->Ok_0.is_error
            == tools::read_result(JsonTree::Object(b), b_size, limits)->Ok_0.is_error,
{
}

/// Arguments are admitted exactly where they are an object within its bound.
pub proof fn law_arguments_are_bounded_objects(
    name: Seq<char>,
    arguments: JsonTree,
    size: nat,
    limits: Limits,
)
    ensures
        tools::arguments_refusal(name, arguments, size, limits) is None <==> arguments is Object
            && size <= limits.max_arguments_bytes,
        arguments is Object && size > limits.max_arguments_bytes ==> tools::arguments_refusal(
            name,
            arguments,
            size,
            limits,
        ) == Some(
            ErrorView::Bound {
                name: "max_arguments_bytes"@,
                actual: size,
                limit: limits.max_arguments_bytes as nat,
            },
        ),
        arguments !is Object ==> tools::arguments_refusal(
            name,
            arguments,
            size,
            limits,
        ) is Some && tools::arguments_refusal(name, arguments, size, limits)->0 is Protocol,
{
}

/// A bound refuses exactly what exceeds it, and tells by how much.
pub proof fn law_bounds_refuse_what_exceeds_them(name: Seq<char>, actual: nat, limit: nat)
    ensures
        actual <= limit <==> limits::bound_refusal(name, actual, limit) is None,
        actual > limit ==> limits::bound_refusal(name, actual, limit) == Some(
            ErrorView::Bound { name, actual, limit },
        ),
{
}

/// Tools freeze exactly where they are not too many and no two have one name, into a snapshot
/// that holds them all, in their order, under the connection and the version given.
pub proof fn law_frozen_tools_are_the_tools_given(
    connection: Seq<char>,
    protocol_version: Seq<char>,
    tools: Seq<DescriptorView>,
    limits: Limits,
)
    ensures
        match tools::freeze_tools(connection, protocol_version, tools, limits) {
            Ok(snapshot) => {
                &&& tools.len() <= limits.max_tools
                &&& forall|i: int, j: int|
                    0 <= i < j < tools.len() ==> (#[trigger] tools[i]).name != (
                    #[trigger] tools[j]).name
                &&& snapshot.connection == connection
                &&& snapshot.protocol_version == protocol_version
                &&& snapshot.tools == tools
            },
            Err(ErrorView::Bound { name, actual, limit }) => {
                &&& name == "max_tools"@
                &&& actual == tools.len()
                &&& limit == limits.max_tools
                &&& tools.len() > limits.max_tools
            },
            Err(error) => error is Protocol && tools.len() <= limits.max_tools && exists|
                i: int,
                j: int,
            |
                0 <= i < j < tools.len() && (#[trigger] tools[i]).name == (
                #[trigger] tools[j]).name,
        },
{
    let listed = tools::names(tools);
    tools::lemma_distinct(listed);
    assert(forall|i: int| 0 <= i < tools.len() ==> listed[i] == (#[trigger] tools[i]).name);
    if listed.no_duplicates() {
        assert forall|i: int, j: int| 0 <= i < j < tools.len() implies (#[trigger] tools[i]).name
            != (#[trigger] tools[j]).name by {
            assert(listed[i] != listed[j]);
        }
    } else {
        let (i, j) = choose|i: int, j: int|
            0 <= i < listed.len() && 0 <= j < listed.len() && i != j && listed[i] == listed[j];
        if i < j {
            assert(tools[i].name == tools[j].name);
        } else {
            assert(tools[j].name == tools[i].name);
        }
    }
}

/// A tool is refused as a duplicate under the name that two tools have.
pub proof fn law_duplicates_are_named(
    connection: Seq<char>,
    protocol_version: Seq<char>,
    tools: Seq<DescriptorView>,
    limits: Limits,
    j: int,
)
    requires
        0 <= j < tools.len() <= limits.max_tools,
        exists|i: int| 0 <= i < j && (#[trigger] tools[i]).name == tools[j].name,
        forall|a: int, b: int|
            0 <= a < b < j ==> (#[trigger] tools[a]).name != (#[trigger] tools[b]).name,
    ensures
        tools::freeze_tools(connection, protocol_version, tools, limits) == Err::<SnapshotView, _>(
            ErrorView::Protocol("server listed duplicate tool `"@ + tools[j].name + "`"@),
        ),
{
    let listed = tools::names(tools);
    let front = listed.take(j);
    let upto = listed.take(j + 1);
    assert(upto.drop_last() =~= front);
    assert(front.no_duplicates()) by {
        assert forall|a: int, b: int|
            0 <= a < front.len() && 0 <= b < front.len() && a != b implies front[a]
            != front[b] by {
            if a < b {
                assert(tools[a].name != tools[b].name);
            } else {
                assert(tools[b].name != tools[a].name);
            }
        }
    }
    tools::lemma_distinct(front);
    let i = choose|i: int| 0 <= i < j && (#[trigger] tools[i]).name == tools[j].name;
    assert(front[i] == upto.last());
    assert(front.contains(upto.last()));
    tools::lemma_first_repeat(listed, j + 1);
}

/// A page that is accepted adds its descriptors after those before it, each as it came, and
/// leads on by its own cursor. It is accepted exactly where it is not one too many.
pub proof fn law_pages_are_kept_whole(
    discovery: DiscoveryView,
    id: Seq<char>,
    tools: Vec<Result<Json, String>>,
    next_cursor: Option<String>,
)
    requires
        discovery.pages < usize::MAX,
    ensures
        ({
            let reply = ListReply::Page { tools, next_cursor };
            let after = discovery.after(id, reply);
            let known = discovery.listed.len() as int;
            match discovery.reply_outcome(id, reply) {
                Ok(cursor) => {
                    &&& discovery.pages + 1 <= discovery.limits.max_pages
                    &&& cursor is Some <==> next_cursor is Some
                    &&& cursor is Some ==> cursor->0 == next_cursor->0@
                    &&& after.pages == discovery.pages + 1
                    &&& after.limits == discovery.limits
                    &&& after.listed.len() == known + tools@.len()
                    &&& forall|i: int| 0 <= i < known ==> after.listed[i] == discovery.listed[i]
                    &&& forall|i: int|
                        0 <= i < tools@.len() ==> match #[trigger] tools@[i] {
                            Ok(raw) => after.listed[known + i] == Ok::<_, Seq<char>>(raw@),
                            Err(reason) => after.listed[known + i] == Err::<JsonTree, _>(reason@),
                        }
                },
                Err(error) => {
                    &&& discovery.pages + 1 > discovery.limits.max_pages
                    &&& error == (ErrorView::Bound {
                        name: "max_pages"@,
                        actual: discovery.pages + 1,
                        limit: discovery.limits.max_pages as nat,
                    })
                },
            }
        }),
{
}

/// A listing that did not come back is a failure of the transport, or of the authorization
/// that it was refused for.
pub proof fn law_failed_listings_are_reported(
    discovery: DiscoveryView,
    id: Seq<char>,
    reply: ListReply,
)
    requires
        reply !is Page,
    ensures
        discovery.reply_outcome(id, reply) is Err,
        reply is TimedOut ==> discovery.reply_outcome(id, reply)->Err_0 == ErrorView::Transport(
            "tools/list timed out"@,
        ),
        reply matches ListReply::Failed { causes, class } ==> discovery.reply_outcome(
            id,
            reply,
        )->Err_0 == client::service_report(causes@, class, id),
{
}

/// A connection that is prepared keeps its limits, and its tools are what the listed objects
/// declare, one for one and in their order.
pub proof fn law_prepared_tools_are_what_was_listed(
    id: Seq<char>,
    version: Option<Seq<char>>,
    discovery: DiscoveryView,
    i: int,
)
    requires
        connection::prepared(id, version, discovery) is Ok,
        0 <= i < discovery.listed.len(),
    ensures
        ({
            let ready = connection::prepared(id, version, discovery)->Ok_0;
            let tool = ready.snapshot.tools[i];
            &&& ready.id == id
            &&& ready.limits == discovery.limits
            &&& ready.snapshot.connection == id
            &&& version is Some ==> ready.snapshot.protocol_version == version->0
            &&& version is None ==> ready.snapshot.protocol_version
                == limits::LEGACY_PROTOCOL_VERSION@
            &&& ready.snapshot.tools.len() == discovery.listed.len()
            &&& discovery.listed[i] is Ok
            &&& discovery.listed[i]->Ok_0 is Object
            &&& ({
                let members = discovery.listed[i]->Ok_0->Object_0;
                &&& held_text(members, "name"@) == Some(tool.name)
                &&& tool.description == held_text(members, "description"@)
                &&& held(members, "inputSchema"@, "input_schema"@) == Some(tool.input_schema)
                &&& tool.output_schema == held(members, "outputSchema"@, "output_schema"@)
                &&& tool.raw == discovery.listed[i]->Ok_0
            })
        }),
{
    lemma_each_is_read(discovery.listed, discovery.limits);
    let ready = connection::prepared(id, version, discovery)->Ok_0;
    let tool = ready.snapshot.tools[i];
    assert(connection::read_listed(discovery.listed[i], discovery.limits) == Ok::<_, ErrorView>(
        tool,
    ));
}

/// Descriptors that are read are read one for one.
proof fn lemma_each_is_read(listed: Seq<Result<JsonTree, Seq<char>>>, limits: Limits)
    ensures
        match connection::read_all(listed, limits) {
            Ok(tools) => tools.len() == listed.len() && forall|i: int|
                0 <= i < tools.len() ==> connection::read_listed(listed[i], limits) == Ok::<
                    _,
                    ErrorView,
                >(#[trigger] tools[i]),
            Err(error) => exists|i: int|
                0 <= i < listed.len() && connection::read_listed(#[trigger] listed[i], limits)
                    == Err::<DescriptorView, _>(error),
        },
    decreases listed.len(),
{
    if listed.len() > 0 {
        let front = listed.drop_last();
        lemma_each_is_read(front, limits);
        match connection::read_all(front, limits) {
            Ok(read) => {
                if let Ok(tools) = connection::read_all(listed, limits) {
                    assert forall|i: int| 0 <= i < tools.len() implies connection::read_listed(
                        listed[i],
                        limits,
                    ) == Ok::<_, ErrorView>(#[trigger] tools[i]) by {
                        if i < read.len() {
                            assert(tools[i] == read[i]);
                            assert(front[i] == listed[i]);
                        }
                    }
                } else {
                    assert(listed[listed.len() - 1] == listed.last());
                }
            },
            Err(error) => {
                let i = choose|i: int|
                    0 <= i < front.len() && connection::read_listed(#[trigger] front[i], limits)
                        == Err::<DescriptorView, _>(error);
                assert(listed[i] == front[i]);
            },
        }
    }
}

/// A listing is prepared into a connection whenever it is not too long, each item is an object
/// within its bound with a name and a schema, and no two have one name.
pub proof fn law_sound_listings_are_prepared(
    id: Seq<char>,
    version: Option<Seq<char>>,
    discovery: DiscoveryView,
)
    requires
        discovery.listed.len() <= discovery.limits.max_tools,
        forall|i: int|
            0 <= i < discovery.listed.len() ==> {
                &&& (#[trigger] discovery.listed[i]) is Ok
                &&& discovery.listed[i]->Ok_0 is Object
                &&& outside::json_bytes(discovery.listed[i]->Ok_0).len()
                    <= discovery.limits.max_tool_descriptor_bytes
                &&& held_text(discovery.listed[i]->Ok_0->Object_0, "name"@) is Some
                &&& held_text(discovery.listed[i]->Ok_0->Object_0, "name"@)->0.len() > 0
                &&& held(
                    discovery.listed[i]->Ok_0->Object_0,
                    "inputSchema"@,
                    "input_schema"@,
                ) is Some
                &&& held(
                    discovery.listed[i]->Ok_0->Object_0,
                    "inputSchema"@,
                    "input_schema"@,
                )->0 is Object
            },
        forall|i: int, j: int|
            0 <= i < j < discovery.listed.len() ==> held_text(
                (#[trigger] discovery.listed[i])->Ok_0->Object_0,
                "name"@,
            ) != held_text((#[trigger] discovery.listed[j])->Ok_0->Object_0, "name"@),
    ensures
        connection::prepared(id, version, discovery) is Ok,
{
    let limits = discovery.limits;
    let listed = discovery.listed;
    lemma_each_is_read(listed, limits);
    assert forall|i: int| 0 <= i < listed.len() implies connection::read_listed(
        #[trigger] listed[i],
        limits,
    ) is Ok by {
        law_descriptors_are_what_was_declared(
            listed[i]->Ok_0->Object_0,
            outside::json_bytes(listed[i]->Ok_0).len(),
            limits,
        );
    }
    let read = connection::read_all(listed, limits)->Ok_0;
    assert forall|i: int, j: int| 0 <= i < j < read.len() implies (#[trigger] read[i]).name != (
    #[trigger] read[j]).name by {
        assert(connection::read_listed(listed[i], limits) is Ok);
        assert(connection::read_listed(listed[j], limits) is Ok);
        assert(held_text(listed[i]->Ok_0->Object_0, "name"@) == Some(read[i].name));
        assert(held_text(listed[j]->Ok_0->Object_0, "name"@) == Some(read[j].name));
    }
    law_frozen_tools_are_the_tools_given(id, connection::negotiated(version), read, limits);
}

/// A call that is admitted is sent under the name and with the arguments that were given, and
/// waits as long as the shorter of the limit and the time that is left.
pub proof fn law_calls_are_sent_as_given(
    connection: ConnectionView,
    name: Seq<char>,
    arguments: JsonTree,
    size: nat,
    deadline: Option<TimeSpan>,
)
    requires
        connection.limits.request_timeout.nanos < 1_000_000_000,
        deadline is Some ==> deadline->0.nanos < 1_000_000_000,
    ensures
        connection.planned(name, arguments, size, deadline) is Ok <==> {
            &&& arguments is Object
            &&& size <= connection.limits.max_arguments_bytes
            &&& exists|i: int|
                0 <= i < connection.snapshot.tools.len() && (
                #[trigger] connection.snapshot.tools[i]).name == name
        },
        connection.planned(name, arguments, size, deadline) matches Ok(plan) ==> {
            let limit = connection.limits.request_timeout;
            &&& plan.name == name
            &&& plan.arguments == arguments
            &&& deadline is None ==> plan.timeout == limit
            &&& deadline is Some ==> (plan.timeout == limit || plan.timeout == deadline->0)
            &&& plan.timeout.secs * 1_000_000_000 + plan.timeout.nanos <= limit.secs
                * 1_000_000_000 + limit.nanos
            &&& deadline is Some ==> plan.timeout.secs * 1_000_000_000 + plan.timeout.nanos
                <= deadline->0.secs * 1_000_000_000 + deadline->0.nanos
        },
{
    let names = tools::names(connection.snapshot.tools);
    let tools = connection.snapshot.tools;
    if names.contains(name) {
        let i = choose|i: int| 0 <= i < names.len() && names[i] == name;
        assert(tools[i].name == name);
    }
    if exists|i: int| 0 <= i < tools.len() && (#[trigger] tools[i]).name == name {
        let i = choose|i: int| 0 <= i < tools.len() && (#[trigger] tools[i]).name == name;
        assert(names[i] == name);
    }
}

/// A call is refused by what is wrong with it: arguments that are no object, that are too
/// large, or a tool that the frozen snapshot does not list.
pub proof fn law_refused_calls_tell_why(
    connection: ConnectionView,
    name: Seq<char>,
    arguments: JsonTree,
    size: nat,
    deadline: Option<TimeSpan>,
)
    ensures
        ({
            let planned = connection.planned(name, arguments, size, deadline);
            if arguments !is Object {
                planned == Err::<CallPlanView, _>(
                    ErrorView::Protocol("arguments for `"@ + name + "` are not a JSON object"@),
                )
            } else if size > connection.limits.max_arguments_bytes {
                planned == Err::<CallPlanView, _>(
                    ErrorView::Bound {
                        name: "max_arguments_bytes"@,
                        actual: size,
                        limit: connection.limits.max_arguments_bytes as nat,
                    },
                )
            } else {
                planned is Err ==> planned == Err::<CallPlanView, _>(
                    ErrorView::Protocol(
                        "tool `"@ + name + "` is absent from connection `"@ + connection.id
                            + "`'s frozen snapshot"@,
                    ),
                )
            }
        }),
{
}

/// A listing that is too long is refused by the name of the bound, and one with an item that
/// could not be taken over for that item's reason.
pub proof fn law_unsound_listings_tell_why(
    id: Seq<char>,
    version: Option<Seq<char>>,
    discovery: DiscoveryView,
    reason: Seq<char>,
)
    ensures
        discovery.listed.len() > discovery.limits.max_tools ==> connection::prepared(
            id,
            version,
            discovery,
        ) == Err::<ConnectionView, _>(
            ErrorView::Bound {
                name: "max_tools"@,
                actual: discovery.listed.len(),
                limit: discovery.limits.max_tools as nat,
            },
        ),
        discovery.listed.len() == 1 && discovery.limits.max_tools > 0 && discovery.listed[0]
            == Err::<JsonTree, _>(reason) ==> connection::prepared(id, version, discovery) == Err::<
            ConnectionView,
            _,
        >(ErrorView::Protocol(reason)),
{
    if discovery.listed.len() == 1 {
        let front = discovery.listed.drop_last();
        assert(connection::read_all(front, discovery.limits) == Ok::<_, ErrorView>(
            Seq::<DescriptorView>::empty(),
        ));
    }
}

/// A listing is refused for the first of its items that is no descriptor.
pub proof fn law_first_unsound_items_are_reported(
    listed: Seq<Result<JsonTree, Seq<char>>>,
    limits: Limits,
    i: int,
)
    requires
        0 <= i < listed.len(),
        connection::read_listed(listed[i], limits) is Err,
        forall|j: int|
            0 <= j < i ==> connection::read_listed(#[trigger] listed[j], limits) is Ok,
    ensures
        connection::read_all(listed, limits) == Err::<Seq<DescriptorView>, _>(
            connection::read_listed(listed[i], limits)->Err_0,
        ),
    decreases listed.len(),
{
    let front = listed.drop_last();
    if i < front.len() {
        assert forall|j: int| 0 <= j < i implies connection::read_listed(
            #[trigger] front[j],
            limits,
        ) is Ok by {
            assert(front[j] == listed[j]);
        }
        law_first_unsound_items_are_reported(front, limits, i);
    } else {
        lemma_each_is_read(front, limits);
        if connection::read_all(front, limits) is Err {
            let j = choose|j: int|
                0 <= j < front.len() && connection::read_listed(#[trigger] front[j], limits)
                    == Err::<DescriptorView, _>(connection::read_all(front, limits)->Err_0);
            assert(listed[j] == front[j]);
        }
    }
}

/// A cleanup that went through is no failure; one that took too long or broke down is one of
/// the transport.
pub proof fn law_cleanups_are_reported(cleanup: Cleanup)
    ensures
        match connection::cleanup_report(cleanup) {
            None => cleanup is Done,
            Some(error) => {
                ||| cleanup is TimedOut && error == ErrorView::Transport(
                    "client cleanup timed out"@,
                )
                ||| cleanup is Failed && error == ErrorView::Transport(
                    "client cleanup task failed"@,
                )
            },
        },
{
}

/// A complete response within its bound is the result, whole, and a failure exactly where its
/// marker says so.
pub proof fn law_complete_responses_are_the_result(
    connection: ConnectionView,
    name: Seq<char>,
    raw: Json,
)
    ensures
        match connection.settled(name, CallResponse::Complete(Ok(raw))) {
            Ok(result) => {
                &&& outside::json_bytes(raw@).len() <= connection.limits.max_result_bytes
                &&& result.raw == raw@
                &&& result.is_error <==> raw@ is Object && held(
                    raw@->Object_0,
                    "isError"@,
                    "is_error"@,
                ) == Some(JsonTree::Bool(true))
            },
            Err(error) => {
                &&& outside::json_bytes(raw@).len() > connection.limits.max_result_bytes
                &&& error == (ErrorView::Bound {
                    name: "max_result_bytes"@,
                    actual: outside::json_bytes(raw@).len(),
                    limit: connection.limits.max_result_bytes as nat,
                })
            },
        },
{
}

/// A response that could not be taken over is a failure of the protocol, for that reason.
pub proof fn law_unreadable_responses_are_failures(
    connection: ConnectionView,
    name: Seq<char>,
    reason: String,
)
    ensures
        connection.settled(name, CallResponse::Complete(Err(reason))) == Err::<ResultView, _>(
            ErrorView::Protocol(reason@),
        ),
{
}

/// A call that failed is reported by its causes, one that took too long as a failure of the
/// transport, and an answer that this client does not support as that.
pub proof fn law_other_responses_are_failures(
    connection: ConnectionView,
    name: Seq<char>,
    response: CallResponse,
)
    requires
        response !is Complete,
    ensures
        match connection.settled(name, response) {
            Ok(_) => false,
            Err(error) => match response {
                CallResponse::TimedOut => error == ErrorView::Transport(
                    "tool `"@ + name + "` timed out"@,
                ),
                CallResponse::Failed { causes, class } => error == client::service_report(
                    causes@,
                    class,
                    connection.id,
                ),
                CallResponse::InputRequired(Ok(_)) => error == (ErrorView::UnsupportedFeature {
                    feature: "input-required"@,
                }),
                CallResponse::Task(Ok(_)) => error == (ErrorView::UnsupportedFeature {
                    feature: "tasks"@,
                }),
                CallResponse::InputRequired(Err(reason)) => error == ErrorView::Protocol(reason@),
                CallResponse::Task(Err(reason)) => error == ErrorView::Protocol(reason@),
                _ => error is UnsupportedFeature,
            },
        },
{
}

/// The contents of tools, snapshots and results are those of their fields, each of them.
pub proof fn law_tool_contents_are_their_fields(
    tool: ToolDescriptor,
    snapshot: ToolSnapshot,
    result: ToolResult,
    plan: CallPlan,
    i: int,
)
    ensures
        tool@.name == tool.name@,
        tool@.description is Some <==> tool.description is Some,
        tool.description is Some ==> tool@.description->0 == tool.description->0@,
        tool@.input_schema == tool.input_schema@,
        tool@.output_schema is Some <==> tool.output_schema is Some,
        tool.output_schema is Some ==> tool@.output_schema->0 == tool.output_schema->0@,
        tool@.raw == tool.raw@,
        snapshot@.connection == snapshot.connection@,
        snapshot@.protocol_version == snapshot.protocol_version@,
        snapshot@.tools.len() == snapshot.tools@.len(),
        0 <= i < snapshot.tools@.len() ==> snapshot@.tools[i] == snapshot.tools@[i]@,
        snapshot@.sha256 == snapshot.sha256@,
        result@.raw == result.raw@,
        result@.is_error == result.is_error,
        plan@.name == plan.name@,
        plan@.arguments == plan.arguments@,
        plan@.timeout == plan.timeout,
{
}

} // verus!
