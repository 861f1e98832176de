//! Synthetic, credential-free values for consumer conformance tests.

use vstd::prelude::*;
use vstd::string::*;
use vstd::utf8::*;

use crate::error;
use crate::error::{pair, ClientError, ErrorView};
use crate::identity;
use crate::identity::ConnectionId;
use crate::json;
use crate::json::{Json, JsonTree};
use crate::limits;
use crate::limits::{Limits, CURRENT_PROTOCOL_VERSION};
use crate::outside;
use crate::paths;
use crate::paths::UnixPath;
use crate::tools;
use crate::tools::{object, serialized_len, SnapshotView, ToolDescriptor, ToolSnapshot};

verus! {

/// An object with one member.
pub open spec fn singleton_tree(key: Seq<char>, value: JsonTree) -> JsonTree {
    JsonTree::Object(Map::empty().insert(key, value))
}

/// The schema of a synthetic tool's arguments: an object with a string under `id`.
pub open spec fn schema_tree() -> JsonTree {
    JsonTree::Object(
        Map::empty().insert("type"@, JsonTree::Text("object"@)).insert(
            "properties"@,
            singleton_tree("id"@, singleton_tree("type"@, JsonTree::Text("string"@))),
        ),
    )
}

/// The raw descriptor of a synthetic tool.
pub open spec fn tool_tree(name: Seq<char>, description: Seq<char>, read_only: bool) -> JsonTree {
    JsonTree::Object(
        Map::empty().insert("name"@, JsonTree::Text(name)).insert(
            "description"@,
            JsonTree::Text(description),
        ).insert("inputSchema"@, schema_tree()).insert(
            "annotations"@,
            singleton_tree("readOnlyHint"@, JsonTree::Bool(read_only)),
        ),
    )
}

/// The raw descriptor of the tool that reads, which says that it does not only read.
pub open spec fn read_tree() -> JsonTree {
    tool_tree("read_issue"@, "Read a synthetic issue"@, false)
}

/// The raw descriptor of the tool that writes, which says that it only reads.
pub open spec fn close_tree() -> JsonTree {
    tool_tree("close_issue"@, "Close a synthetic issue"@, true)
}

/// Adds a member to an object that is being listed.
fn push_member(members: &mut Vec<(String, Json)>, key: &str, value: Json)
    ensures
        json::member_trees(final(members)@) == json::member_trees(old(members)@).insert(
            key@,
            value@,
        ),
{
    let ghost before = members@;
    members.push((key.to_owned(), value));
    assert(members@.drop_last() =~= before);
}

/// An object with one member.
fn singleton(key: &str, value: Json) -> (r: Json)
    ensures
        r@ == singleton_tree(key@, value@),
{
    let mut members: Vec<(String, Json)> = Vec::new();
    push_member(&mut members, key, value);
    object(members)
}

/// The schema of a synthetic tool's arguments.
fn schema() -> (r: Json)
    ensures
        r@ == schema_tree(),
{
    let mut members: Vec<(String, Json)> = Vec::new();
    push_member(&mut members, "type", Json::Text("object".to_owned()));
    let string = singleton("type", Json::Text("string".to_owned()));
    push_member(&mut members, "properties", singleton("id", string));
    object(members)
}

/// The raw descriptor of a synthetic tool.
pub fn synthetic_tool(name: &str, description: &str, read_only: bool) -> (r: Json)
    ensures
        r@ == tool_tree(name@, description@, read_only),
{
    let mut members: Vec<(String, Json)> = Vec::new();
    push_member(&mut members, "name", Json::Text(name.to_owned()));
    push_member(&mut members, "description", Json::Text(description.to_owned()));
    push_member(&mut members, "inputSchema", schema());
    push_member(&mut members, "annotations", singleton("readOnlyHint", Json::Bool(read_only)));
    object(members)
}

/// The synthetic snapshot of a connection, where the two descriptors take this many bytes.
pub open spec fn synthetic(connection: Seq<char>, read_size: nat, close_size: nat) -> Result<
    SnapshotView,
    ErrorView,
> {
    let limits = limits::default_limits();
    match tools::read_descriptor(read_tree(), read_size, limits) {
        Err(error) => Err(error),
        Ok(read) => match tools::read_descriptor(close_tree(), close_size, limits) {
            Err(error) => Err(error),
            Ok(close) => if !identity::connection_name(connection) {
                Err(identity::bad_connection_name())
            } else {
                tools::freeze_tools(
                    connection,
                    CURRENT_PROTOCOL_VERSION@,
                    seq![read, close],
                    limits,
                )
            },
        },
    }
}

/// Builds a deterministic two-tool snapshot with deliberately untrusted annotations.
pub fn synthetic_snapshot(connection: &str) -> (r: Result<ToolSnapshot, ClientError>)
    ensures
        error::outcome(r) == synthetic(
            connection@,
            outside::json_bytes(read_tree()).len(),
            outside::json_bytes(close_tree()).len(),
        ),
        r is Ok ==> r->Ok_0.well_formed(),
{
    let read = synthetic_tool("read_issue", "Read a synthetic issue", false);
    let close = synthetic_tool("close_issue", "Close a synthetic issue", true);
    let read_size: usize = serialized_len(&read);
    let close_size: usize = serialized_len(&close);
    synthetic_sized(connection, read_size, close_size)
}

/// Builds the synthetic snapshot, where the two descriptors take this many bytes.
pub fn synthetic_sized(connection: &str, read_size: usize, close_size: usize) -> (r: Result<
    ToolSnapshot,
    ClientError,
>)
    ensures
        error::outcome(r) == synthetic(connection@, read_size as nat, close_size as nat),
        r is Ok ==> r->Ok_0.well_formed(),
{
    let limits = Limits::default();
    let read = ToolDescriptor::from_sized(
        synthetic_tool("read_issue", "Read a synthetic issue", false),
        read_size,
        limits,
    )?;
    let close = ToolDescriptor::from_sized(
        synthetic_tool("close_issue", "Close a synthetic issue", true),
        close_size,
        limits,
    )?;
    let id = match ConnectionId::new(connection) {
        Ok(id) => id,
        Err(error) => return Err(error),
    };
    let ghost views = seq![read@, close@];
    let mut listed: Vec<ToolDescriptor> = Vec::new();
    listed.push(read);
    listed.push(close);
    assert(tools::descriptors(listed@) =~= views);
    ToolSnapshot::new(id, CURRENT_PROTOCOL_VERSION, listed, limits)
}

/// Where the source of the controlled server is, in a package at this directory.
pub fn controlled_server_source(package: &UnixPath) -> (r: UnixPath)
    ensures
        r@ == paths::joined_path(package@, encode_utf8("fixtures/mcp_server.rs"@)),
{
    package.join("fixtures/mcp_server.rs")
}

/// How the compilation of the controlled server ended.
#[derive(Debug, PartialEq, Eq)]
pub enum Compilation {
    /// The compiler did not start, for a reason.
    NotStarted(String),
    /// The compiler refused the source with these diagnostics.
    Refused(String),
    /// An executable was made.
    Succeeded,
}

/// The executable that a compilation made in a directory, or why it made none.
pub fn build_controlled_server(directory: &UnixPath, compilation: Compilation) -> (r: Result<
    UnixPath,
    String,
>)
    ensures
        match compilation {
            Compilation::NotStarted(reason) => r is Err && r->Err_0@ == "starting rustc: "@
                + reason@,
            Compilation::Refused(diagnostics) => r is Err && r->Err_0@
                == "the controlled server did not compile: "@ + diagnostics@,
            Compilation::Succeeded => r is Ok && r->Ok_0@ == paths::joined_path(
                directory@,
                encode_utf8("b10x-mcp-controlled-server"@),
            ),
        },
{
    match compilation {
        Compilation::NotStarted(reason) => Err(pair("starting rustc: ", reason.as_str())),
        Compilation::Refused(diagnostics) => Err(
            pair("the controlled server did not compile: ", diagnostics.as_str()),
        ),
        Compilation::Succeeded => Ok(directory.join("b10x-mcp-controlled-server")),
    }
}

} // verus!
