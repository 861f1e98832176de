//! Tool descriptors, frozen snapshots, calls and results.

use vstd::prelude::*;
use vstd::string::*;
use vstd::utf8::*;

use crate::canonical;
use crate::canonical::{digest_hex, push_json, push_optional, push_string, push_text};
use crate::error;
use crate::error::{copy_optional, joined, protocol, ClientError, ErrorView};
use crate::identity::ConnectionId;
use crate::json;
use crate::json::{Json, JsonTree};
use crate::limits;
use crate::refusal;
use crate::limits::{ensure_bound, Limits};
use crate::outside;
use crate::text::same;

verus! {

/// A validated tool descriptor and the complete JSON value received for it.
#[derive(Debug, PartialEq)]
pub struct ToolDescriptor {
    /// MCP tool name, as the server gave it.
    pub name: String,
    /// Server-provided prose; never authority.
    pub description: Option<String>,
    /// JSON Schema object for arguments.
    pub input_schema: Json,
    /// Optional JSON Schema object for results.
    pub output_schema: Option<Json>,
    /// Exact descriptor, including annotations and metadata.
    pub raw: Json,
}

/// The contents of a descriptor.
#[verifier::ext_equal]
pub struct DescriptorView {
    pub name: Seq<char>,
    pub description: Option<Seq<char>>,
    pub input_schema: JsonTree,
    pub output_schema: Option<JsonTree>,
    pub raw: JsonTree,
}

/// The meaning of an optional value.
pub open spec fn optional_tree(value: Option<Json>) -> Option<JsonTree> {
    match value {
        Some(value) => Some(value@),
        None => None,
    }
}

impl View for ToolDescriptor {
    type V = DescriptorView;

    open spec fn view(&self) -> DescriptorView {
        DescriptorView {
            name: self.name@,
            description: error::optional_text(self.description),
            input_schema: self.input_schema@,
            output_schema: optional_tree(self.output_schema),
            raw: self.raw@,
        }
    }
}

impl Clone for ToolDescriptor {
    fn clone(&self) -> (r: Self)
        ensures
            r@ == self@,
    {
        ToolDescriptor {
            name: self.name.clone(),
            description: copy_optional(&self.description),
            input_schema: self.input_schema.copy(),
            output_schema: match &self.output_schema {
                Some(schema) => Some(schema.copy()),
                None => None,
            },
            raw: self.raw.copy(),
        }
    }
}

/// What a raw descriptor of `size` encoded bytes is read as.
pub open spec fn read_descriptor(raw: JsonTree, size: nat, limits: Limits) -> Result<
    DescriptorView,
    ErrorView,
> {
    let name = json::text_of(raw.member("name"@));
    let schema = raw.member_or("inputSchema"@, "input_schema"@);
    if size > limits.max_tool_descriptor_bytes {
        Err(
            ErrorView::Bound {
                name: "max_tool_descriptor_bytes"@,
                actual: size,
                limit: limits.max_tool_descriptor_bytes as nat,
            },
        )
    } else if !(raw is Object) {
        Err(ErrorView::Protocol("tool descriptor is not a JSON object"@))
    } else if name is None || name->0.len() == 0 {
        Err(ErrorView::Protocol("tool descriptor has no name"@))
    } else if schema is None {
        Err(ErrorView::Protocol("tool `"@ + name->0 + "` has no input schema"@))
    } else if !(schema->0 is Object) {
        Err(ErrorView::Protocol("tool `"@ + name->0 + "` input schema is not an object"@))
    } else {
        Ok(
            DescriptorView {
                name: name->0,
                description: json::text_of(raw.member("description"@)),
                input_schema: schema->0,
                output_schema: raw.member_or("outputSchema"@, "output_schema"@),
                raw,
            },
        )
    }
}

/// The number of bytes in the encoding of a value.
pub fn serialized_len(value: &Json) -> (r: usize)
    ensures
        r == outside::json_bytes(value@).len(),
{
    value.encode().len()
}

impl ToolDescriptor {
    /// Reads a raw descriptor while validating the fields needed for invocation.
    pub fn from_raw(raw: Json, limits: Limits) -> (r: Result<Self, ClientError>)
        ensures
            error::outcome(r) == read_descriptor(
                raw@,
                outside::json_bytes(raw@).len(),
                limits,
            ),
    {
        let size: usize = serialized_len(&raw);
        Self::from_sized(raw, size, limits)
    }

    /// Reads a raw descriptor whose encoding takes `size` bytes.
    pub fn from_sized(raw: Json, size: usize, limits: Limits) -> (r: Result<Self, ClientError>)
        ensures
            error::outcome(r) == read_descriptor(raw@, size as nat, limits),
    {
        ensure_bound("max_tool_descriptor_bytes", size, limits.max_tool_descriptor_bytes)?;
        if !raw.is_object() {
            return Err(protocol("tool descriptor is not a JSON object"));
        }
        let name = match Self::text_member(&raw, "name") {
            Some(name) => if name.as_str().is_empty() {
                return Err(protocol("tool descriptor has no name"));
            } else {
                name
            },
            None => return Err(protocol("tool descriptor has no name")),
        };
        let input_schema = match raw.get_or("inputSchema", "input_schema") {
            Some(schema) => schema.copy(),
            None => return Err(
                ClientError::Protocol(joined("tool `", name.as_str(), "` has no input schema")),
            ),
        };
        if !input_schema.is_object() {
            return Err(
                ClientError::Protocol(
                    joined("tool `", name.as_str(), "` input schema is not an object"),
                ),
            );
        }
        let description = Self::text_member(&raw, "description");
        let output_schema = match raw.get_or("outputSchema", "output_schema") {
            Some(schema) => Some(schema.copy()),
            None => None,
        };
        Ok(ToolDescriptor { name, description, input_schema, output_schema, raw })
    }

    /// The string that a member holds.
    fn text_member(raw: &Json, key: &str) -> (r: Option<String>)
        ensures
            error::optional_text(r) == json::text_of(raw@.member(key@)),
    {
        match raw.get(key) {
            Some(value) => match value.as_text() {
                Some(text) => Some(text.to_owned()),
                None => None,
            },
            None => None,
        }
    }
}

/// One immutable tools view for one prepared connection.
#[derive(Debug, PartialEq)]
pub struct ToolSnapshot {
    /// Client-owned connection identity.
    pub connection: ConnectionId,
    /// Negotiated protocol revision.
    pub protocol_version: String,
    /// Tools in the deterministic order returned by the server.
    pub tools: Vec<ToolDescriptor>,
    /// SHA-256 over the other fields' canonical JSON representation.
    pub sha256: String,
}

/// The contents of a snapshot.
#[verifier::ext_equal]
pub struct SnapshotView {
    pub connection: Seq<char>,
    pub protocol_version: Seq<char>,
    pub tools: Seq<DescriptorView>,
    pub sha256: Seq<char>,
}

/// The contents of descriptors.
pub open spec fn descriptors(tools: Seq<ToolDescriptor>) -> Seq<DescriptorView> {
    Seq::new(tools.len(), |i: int| tools[i]@)
}

/// The names of descriptors.
pub open spec fn names(tools: Seq<DescriptorView>) -> Seq<Seq<char>> {
    Seq::new(tools.len(), |i: int| tools[i].name)
}

impl View for ToolSnapshot {
    type V = SnapshotView;

    open spec fn view(&self) -> SnapshotView {
        SnapshotView {
            connection: self.connection@,
            protocol_version: self.protocol_version@,
            tools: descriptors(self.tools@),
            sha256: self.sha256@,
        }
    }
}

/// A copy of descriptors.
pub fn copy_descriptors(tools: &Vec<ToolDescriptor>) -> (r: Vec<ToolDescriptor>)
    ensures
        descriptors(r@) == descriptors(tools@),
{
    let mut copies: Vec<ToolDescriptor> = Vec::new();
    let mut i: usize = 0;
    while i < tools.len()
        invariant
            i <= tools@.len(),
            copies@.len() == i,
            forall|j: int| 0 <= j < i ==> (#[trigger] copies@[j])@ == tools@[j]@,
        decreases tools@.len() - i,
    {
        copies.push(tools[i].clone());
        i = i + 1;
    }
    assert(descriptors(copies@) =~= descriptors(tools@));
    copies
}

impl Clone for ToolSnapshot {
    fn clone(&self) -> (r: Self)
        ensures
            r@ == self@,
    {
        ToolSnapshot {
            connection: self.connection.clone(),
            protocol_version: self.protocol_version.clone(),
            tools: copy_descriptors(&self.tools),
            sha256: self.sha256.clone(),
        }
    }
}

/// The first name that an earlier one equals.
pub open spec fn first_repeat(names: Seq<Seq<char>>) -> Option<Seq<char>>
    decreases names.len(),
{
    if names.len() == 0 {
        None
    } else {
        match first_repeat(names.drop_last()) {
            Some(name) => Some(name),
            None => if names.drop_last().contains(names.last()) {
                Some(names.last())
            } else {
                None
            },
        }
    }
}

/// The canonical encoding of a descriptor.
pub open spec fn descriptor_bytes(tool: DescriptorView) -> Seq<u8> {
    encode_utf8("{\"name\":"@) + canonical::string_bytes(tool.name) + encode_utf8(
        ",\"description\":"@,
    ) + canonical::optional_bytes(tool.description) + encode_utf8(",\"input_schema\":"@)
        + outside::json_bytes(tool.input_schema) + encode_utf8(",\"output_schema\":"@)
        + outside::json_bytes(
        match tool.output_schema {
            Some(schema) => schema,
            None => JsonTree::Null,
        },
    ) + encode_utf8(",\"raw\":"@) + outside::json_bytes(tool.raw) + encode_utf8("}"@)
}

/// The canonical encoding that a snapshot's digest is taken over.
pub open spec fn snapshot_bytes(
    connection: Seq<char>,
    protocol_version: Seq<char>,
    tools: Seq<DescriptorView>,
) -> Seq<u8> {
    encode_utf8("["@) + canonical::string_bytes(connection) + encode_utf8(","@)
        + canonical::string_bytes(protocol_version) + encode_utf8(",["@)
        + canonical::comma_separated(Seq::new(tools.len(), |i: int| descriptor_bytes(tools[i])))
        + encode_utf8("]]"@)
}

/// The digest of a snapshot's contents.
pub open spec fn snapshot_digest(
    connection: Seq<char>,
    protocol_version: Seq<char>,
    tools: Seq<DescriptorView>,
) -> Seq<char> {
    canonical::digest_text(snapshot_bytes(connection, protocol_version, tools))
}

/// What a complete discovery result is frozen into.
pub open spec fn freeze_tools(
    connection: Seq<char>,
    protocol_version: Seq<char>,
    tools: Seq<DescriptorView>,
    limits: Limits,
) -> Result<SnapshotView, ErrorView> {
    let repeat = first_repeat(names(tools));
    if tools.len() > limits.max_tools {
        Err(
            ErrorView::Bound {
                name: "max_tools"@,
                actual: tools.len(),
                limit: limits.max_tools as nat,
            },
        )
    } else if repeat is Some {
        Err(ErrorView::Protocol("server listed duplicate tool `"@ + repeat->0 + "`"@))
    } else {
        Ok(
            SnapshotView {
                connection,
                protocol_version,
                tools,
                sha256: snapshot_digest(connection, protocol_version, tools),
            },
        )
    }
}

/// Appends the canonical encoding of a descriptor.
fn push_descriptor(out: &mut Vec<u8>, tool: &ToolDescriptor)
    ensures
        final(out)@ == old(out)@ + descriptor_bytes(tool@),
{
    broadcast use canonical::lemma_append;

    push_text(out, "{\"name\":");
    push_string(out, tool.name.as_str());
    push_text(out, ",\"description\":");
    push_optional(out, &tool.description);
    push_text(out, ",\"input_schema\":");
    push_json(out, &tool.input_schema);
    push_text(out, ",\"output_schema\":");
    match &tool.output_schema {
        Some(schema) => push_json(out, schema),
        None => push_json(out, &Json::Null),
    }
    push_text(out, ",\"raw\":");
    push_json(out, &tool.raw);
    push_text(out, "}");
}

/// The canonical encoding that a snapshot's digest is taken over.
fn encode_snapshot(
    connection: &ConnectionId,
    protocol_version: &str,
    tools: &Vec<ToolDescriptor>,
) -> (r: Vec<u8>)
    ensures
        r@ == snapshot_bytes(connection@, protocol_version@, descriptors(tools@)),
{
    let mut out: Vec<u8> = Vec::new();
    push_text(&mut out, "[");
    push_string(&mut out, connection.as_str());
    push_text(&mut out, ",");
    push_string(&mut out, protocol_version);
    push_text(&mut out, ",[");
    let ghost head = out@;
    let ghost parts = Seq::new(tools@.len(), |i: int| descriptor_bytes(tools@[i]@));
    let mut i: usize = 0;
    while i < tools.len()
        invariant
            i <= tools@.len(),
            parts == Seq::new(tools@.len(), |i: int| descriptor_bytes(tools@[i]@)),
            out@ == head + canonical::comma_separated(parts.take(i as int)),
        decreases tools@.len() - i,
    {
        if i > 0 {
            push_text(&mut out, ",");
        }
        push_descriptor(&mut out, &tools[i]);
        proof {
            assert(parts.take(i + 1).drop_last() =~= parts.take(i as int));
            assert(out@ =~= head + canonical::comma_separated(parts.take(i + 1)));
        }
        i = i + 1;
    }
    proof {
        assert(parts.take(i as int) =~= parts);
        let tool_views = descriptors(tools@);
        assert(parts =~= Seq::new(tool_views.len(), |i: int| descriptor_bytes(tool_views[i])));
    }
    push_text(&mut out, "]]");
    assert(out@ =~= snapshot_bytes(connection@, protocol_version@, descriptors(tools@)));
    out
}

/// Decides whether a tool before position `i` has the name of the one there.
fn is_repeat(tools: &Vec<ToolDescriptor>, i: usize) -> (r: bool)
    requires
        i < tools@.len(),
    ensures
        r == names(descriptors(tools@)).take(i as int).contains(names(descriptors(tools@))[i as int]),
{
    let ghost listed = names(descriptors(tools@));
    let ghost front = listed.take(i as int);
    let mut j: usize = 0;
    while j < i
        invariant
            j <= i < tools@.len(),
            listed == names(descriptors(tools@)),
            front == listed.take(i as int),
            forall|k: int| 0 <= k < j ==> #[trigger] front[k] != listed[i as int],
        decreases i - j,
    {
        if tools[j].name == tools[i].name {
            assert(front[j as int] == listed[i as int]);
            return true;
        }
        j = j + 1;
    }
    false
}

impl ToolSnapshot {
    /// The names are distinct and the digest, of sixty-four digits, is that of the contents.
    pub open spec fn well_formed(self) -> bool {
        &&& names(self@.tools).no_duplicates()
        &&& self@.sha256.len() == 64
        &&& self@.sha256 == snapshot_digest(self@.connection, self@.protocol_version, self@.tools)
    }

    /// Validates a complete discovery result and computes its digest.
    pub fn new(
        connection: ConnectionId,
        protocol_version: &str,
        tools: Vec<ToolDescriptor>,
        limits: Limits,
    ) -> (r: Result<Self, ClientError>)
        ensures
            error::outcome(r) == freeze_tools(
                connection@,
                protocol_version@,
                descriptors(tools@),
                limits,
            ),
            r is Ok ==> r->Ok_0.well_formed(),
            r is Ok ==> r->Ok_0.tools == tools,
            r is Ok ==> r->Ok_0.sha256@.len() == 64,
    {
        ensure_bound("max_tools", tools.len(), limits.max_tools)?;
        let ghost listed = names(descriptors(tools@));
        let mut i: usize = 0;
        assert(listed.take(0) =~= Seq::<Seq<char>>::empty());
        while i < tools.len()
            invariant
                i <= tools@.len() <= limits.max_tools,
                listed == names(descriptors(tools@)),
                first_repeat(listed.take(i as int)) is None,
            decreases tools@.len() - i,
        {
            assert(listed.take(i + 1).drop_last() =~= listed.take(i as int));
            if is_repeat(&tools, i) {
                proof {
                    lemma_first_repeat(listed, i + 1);
                }
                return Err(
                    ClientError::Protocol(
                        joined("server listed duplicate tool `", tools[i].name.as_str(), "`"),
                    ),
                );
            }
            i = i + 1;
        }
        assert(listed.take(i as int) =~= listed);
        proof {
            lemma_distinct(listed);
        }
        let digest_input = encode_snapshot(&connection, protocol_version, &tools);
        let sha256 = digest_hex(digest_input.as_slice());
        Ok(ToolSnapshot { connection, protocol_version: protocol_version.to_owned(), tools, sha256 })
    }

    /// Finds a tool of this frozen snapshot by its name.
    pub fn tool(&self, name: &str) -> (r: Option<&ToolDescriptor>)
        ensures
            r is Some <==> names(self@.tools).contains(name@),
            r is Some ==> exists|i: int|
                0 <= i < self.tools@.len() && *r->0 == #[trigger] self.tools@[i]
                    && self.tools@[i].name@ == name@ && forall|j: int|
                    0 <= j < i ==> (#[trigger] self.tools@[j]).name@ != name@,
    {
        let mut i: usize = 0;
        while i < self.tools.len()
            invariant
                i <= self.tools@.len(),
                forall|j: int| 0 <= j < i ==> (#[trigger] self.tools@[j]).name@ != name@,
            decreases self.tools@.len() - i,
        {
            if same(self.tools[i].name.as_str(), name) {
                assert(names(self@.tools)[i as int] == name@);
                return Some(&self.tools[i]);
            }
            i = i + 1;
        }
        assert(!names(self@.tools).contains(name@));
        None
    }
}

/// A repeat within the first `n` names is the first repeat of all of them.
pub proof fn lemma_first_repeat(names: Seq<Seq<char>>, n: int)
    requires
        0 <= n <= names.len(),
        first_repeat(names.take(n)) is Some,
    ensures
        first_repeat(names) == first_repeat(names.take(n)),
    decreases names.len() - n,
{
    if n < names.len() {
        assert(names.take(n + 1).drop_last() =~= names.take(n));
        lemma_first_repeat(names, n + 1);
    } else {
        assert(names.take(n) =~= names);
    }
}

/// Names have no first repeat exactly when they are distinct.
pub proof fn lemma_distinct(names: Seq<Seq<char>>)
    ensures
        first_repeat(names) is None <==> names.no_duplicates(),
    decreases names.len(),
{
    if names.len() > 0 {
        let front = names.drop_last();
        lemma_distinct(front);
        if front.contains(names.last()) {
            let i = choose|i: int| 0 <= i < front.len() && front[i] == names.last();
            assert(names[i] == names[names.len() - 1]);
        }
        if names.no_duplicates() {
            assert forall|i: int, j: int|
                0 <= i < front.len() && 0 <= j < front.len() && i != j implies front[i]
                != front[j] by {
                assert(names[i] != names[j]);
            }
        }
        if first_repeat(names) is None {
            assert forall|i: int, j: int|
                0 <= i < names.len() && 0 <= j < names.len() && i != j implies names[i]
                != names[j] by {
                if i < front.len() && j < front.len() {
                    assert(front[i] != front[j]);
                } else if i < front.len() {
                    assert(front.contains(front[i]));
                } else {
                    assert(front.contains(front[j]));
                }
            }
        }
    }
}

/// One tools/call request after snapshot admission.
#[derive(Debug, PartialEq)]
pub struct ToolCall {
    /// MCP tool name, as the server gave it.
    pub name: String,
    /// JSON object passed as arguments.
    pub arguments: Json,
}

impl Clone for ToolCall {
    fn clone(&self) -> (r: Self)
        ensures
            r.name@ == self.name@,
            r.arguments@ == self.arguments@,
    {
        ToolCall { name: self.name.clone(), arguments: self.arguments.copy() }
    }
}

/// What speaks against arguments of `size` encoded bytes.
pub open spec fn arguments_refusal(
    name: Seq<char>,
    arguments: JsonTree,
    size: nat,
    limits: Limits,
) -> Option<ErrorView> {
    if !(arguments is Object) {
        Some(ErrorView::Protocol("arguments for `"@ + name + "` are not a JSON object"@))
    } else {
        limits::bound_refusal("max_arguments_bytes"@, size, limits.max_arguments_bytes as nat)
    }
}

impl ToolCall {
    /// Validates arguments and their serialized bound.
    pub fn validate(&self, limits: Limits) -> (r: Result<(), ClientError>)
        ensures
            refusal::checked(
                r,
                arguments_refusal(
                    self.name@,
                    self.arguments@,
                    outside::json_bytes(self.arguments@).len(),
                    limits,
                ),
            ),
    {
        let size: usize = serialized_len(&self.arguments);
        self.validate_sized(size, limits)
    }

    /// Validates arguments whose encoding takes `size` bytes.
    pub fn validate_sized(&self, size: usize, limits: Limits) -> (r: Result<(), ClientError>)
        ensures
            refusal::checked(
                r,
                arguments_refusal(self.name@, self.arguments@, size as nat, limits),
            ),
    {
        if !self.arguments.is_object() {
            return Err(
                ClientError::Protocol(
                    joined("arguments for `", self.name.as_str(), "` are not a JSON object"),
                ),
            );
        }
        ensure_bound("max_arguments_bytes", size, limits.max_arguments_bytes)
    }
}

/// Complete MCP result retained as JSON for lossless consumer projection.
#[derive(Debug, PartialEq)]
pub struct ToolResult {
    /// Full decoded result.
    pub raw: Json,
    /// MCP's tool-level failure marker.
    pub is_error: bool,
}

/// The contents of a result.
#[verifier::ext_equal]
pub struct ResultView {
    pub raw: JsonTree,
    pub is_error: bool,
}

impl View for ToolResult {
    type V = ResultView;

    open spec fn view(&self) -> ResultView {
        ResultView { raw: self.raw@, is_error: self.is_error }
    }
}

impl Clone for ToolResult {
    fn clone(&self) -> (r: Self)
        ensures
            r@ == self@,
    {
        ToolResult { raw: self.raw.copy(), is_error: self.is_error }
    }
}

/// What a raw result of `size` encoded bytes is read as.
pub open spec fn read_result(raw: JsonTree, size: nat, limits: Limits) -> Result<
    ResultView,
    ErrorView,
> {
    match limits::bound_refusal("max_result_bytes"@, size, limits.max_result_bytes as nat) {
        Some(error) => Err(error),
        None => Ok(
            ResultView {
                raw,
                is_error: raw.member_or("isError"@, "is_error"@) == Some(JsonTree::Bool(true)),
            },
        ),
    }
}

impl ToolResult {
    /// Validates and constructs a result.
    pub fn from_raw(raw: Json, limits: Limits) -> (r: Result<Self, ClientError>)
        ensures
            error::outcome(r) == read_result(raw@, outside::json_bytes(raw@).len(), limits),
    {
        let size: usize = serialized_len(&raw);
        Self::from_sized(raw, size, limits)
    }

    /// Constructs a result whose encoding takes `size` bytes.
    pub fn from_sized(raw: Json, size: usize, limits: Limits) -> (r: Result<Self, ClientError>)
        ensures
            error::outcome(r) == read_result(raw@, size as nat, limits),
    {
        ensure_bound("max_result_bytes", size, limits.max_result_bytes)?;
        let is_error = match raw.get_or("isError", "is_error") {
            Some(Json::Bool(flag)) => *flag,
            _ => false,
        };
        Ok(ToolResult { raw, is_error })
    }
}

/// Converts entries into a JSON object without changing their values.
pub fn object(entries: Vec<(String, Json)>) -> (r: Json)
    ensures
        r@ == JsonTree::Object(json::member_trees(entries@)),
{
    Json::Object(entries)
}

} // verus!
