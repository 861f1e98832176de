//! What digests are taken over.

use vstd::prelude::*;
use vstd::utf8::*;

use crate::bearer::BearerSource;
use crate::canonical;
use crate::error;
use crate::json::JsonTree;
use crate::oauth::OAuthConfig;
use crate::outside;
use crate::registry::{ConnectionConfig, HttpAuth};
use crate::registry_digest;
use crate::text;
use crate::tools;
use crate::tools::DescriptorView;
use crate::transport::{HttpTransportConfig, StdioTransportConfig};

verus! {

/// What stands between the same bytes is the same where the whole is.
proof fn lemma_between(front: Seq<u8>, a: Seq<u8>, b: Seq<u8>, back: Seq<u8>)
    requires
        front + a + back == front + b + back,
    ensures
        a == b,
{
    let x = front + a + back;
    let y = front + b + back;
    assert(x.len() == y.len());
    assert(x.subrange(front.len() as int, (front.len() + a.len()) as int) =~= a);
    assert(y.subrange(front.len() as int, (front.len() + b.len()) as int) =~= b);
}

/// Lists that differ in one part differ in that part's bytes.
proof fn lemma_parts(parts: Seq<Seq<u8>>, i: int, a: Seq<u8>, b: Seq<u8>)
    requires
        0 <= i < parts.len(),
        canonical::comma_separated(parts.update(i, a)) == canonical::comma_separated(
            parts.update(i, b),
        ),
    ensures
        a == b,
    decreases parts.len(),
{
    let x = parts.update(i, a);
    let y = parts.update(i, b);
    let comma = encode_utf8(","@);
    let none = Seq::<u8>::empty();
    if parts.len() > 1 {
        let front = parts.drop_last();
        if i == parts.len() - 1 {
            assert(x.drop_last() =~= front);
            assert(y.drop_last() =~= front);
            let head = canonical::comma_separated(front) + comma;
            assert(head + a + none =~= canonical::comma_separated(x));
            assert(head + b + none =~= canonical::comma_separated(y));
            lemma_between(head, a, b, none);
        } else {
            assert(x.drop_last() =~= front.update(i, a));
            assert(y.drop_last() =~= front.update(i, b));
            let tail = comma + parts.last();
            let p = canonical::comma_separated(front.update(i, a));
            let q = canonical::comma_separated(front.update(i, b));
            assert(none + p + tail =~= canonical::comma_separated(x));
            assert(none + q + tail =~= canonical::comma_separated(y));
            lemma_between(none, p, q, tail);
            lemma_parts(front, i, a, b);
        }
    }
}

/// A list that gets one more part gets it at its end, after a comma where there are others.
proof fn lemma_one_more(parts: Seq<Seq<u8>>, part: Seq<u8>)
    ensures
        parts.len() == 0 ==> canonical::comma_separated(parts.push(part)) == part,
        parts.len() > 0 ==> canonical::comma_separated(parts.push(part))
            == canonical::comma_separated(parts) + encode_utf8(","@) + part,
{
    assert(parts.push(part).drop_last() =~= parts);
}

/// A digest is that of the message that it is taken over, in base sixteen.
pub proof fn law_digests_are_those_of_their_message(message: Seq<u8>)
    ensures
        canonical::digest_text(message) == text::hexadecimal(outside::sha256_digest(message)),
{
}

/// The message of a snapshot's digest tells apart connections, versions and descriptors that
/// are encoded differently.
pub proof fn law_snapshot_messages_tell_contents_apart(
    connection: Seq<char>,
    version: Seq<char>,
    tools: Seq<DescriptorView>,
    i: int,
    other: DescriptorView,
    text: Seq<char>,
)
    ensures
        tools::snapshot_bytes(connection, version, tools) == tools::snapshot_bytes(
            text,
            version,
            tools,
        ) ==> outside::json_bytes(JsonTree::Text(connection)) == outside::json_bytes(
            JsonTree::Text(text),
        ),
        tools::snapshot_bytes(connection, version, tools) == tools::snapshot_bytes(
            connection,
            text,
            tools,
        ) ==> outside::json_bytes(JsonTree::Text(version)) == outside::json_bytes(
            JsonTree::Text(text),
        ),
        0 <= i < tools.len() && tools::snapshot_bytes(connection, version, tools)
            == tools::snapshot_bytes(connection, version, tools.update(i, other))
            ==> tools::descriptor_bytes(tools[i]) == tools::descriptor_bytes(other),
{
    let parts = Seq::new(tools.len(), |i: int| tools::descriptor_bytes(tools[i]));
    let p = snapshot_parts(connection, version, tools);
    lemma_snapshot_parts(connection, version, tools);
    if tools::snapshot_bytes(connection, version, tools) == tools::snapshot_bytes(
        text,
        version,
        tools,
    ) {
        let q = snapshot_parts(text, version, tools);
        lemma_snapshot_parts(text, version, tools);
        lemma_row_replaced(p, q, 1);
    }
    if tools::snapshot_bytes(connection, version, tools) == tools::snapshot_bytes(
        connection,
        text,
        tools,
    ) {
        let q = snapshot_parts(connection, text, tools);
        lemma_snapshot_parts(connection, text, tools);
        lemma_row_replaced(p, q, 3);
    }
    let changed = tools.update(i, other);
    if 0 <= i < tools.len() && tools::snapshot_bytes(connection, version, tools)
        == tools::snapshot_bytes(connection, version, changed) {
        let q = snapshot_parts(connection, version, changed);
        lemma_snapshot_parts(connection, version, changed);
        lemma_row_replaced(p, q, 5);
        let others = Seq::new(changed.len(), |i: int| tools::descriptor_bytes(changed[i]));
        assert(others =~= parts.update(i, tools::descriptor_bytes(other)));
        assert(parts.update(i, tools::descriptor_bytes(tools[i])) =~= parts);
        lemma_parts(parts, i, tools::descriptor_bytes(tools[i]), tools::descriptor_bytes(other));
    }
}

/// The parts of the message of a snapshot's digest, in their order.
spec fn snapshot_parts(
    connection: Seq<char>,
    version: Seq<char>,
    tools: Seq<DescriptorView>,
) -> Seq<Seq<u8>> {
    seq![
        encode_utf8("["@),
        canonical::string_bytes(connection),
        encode_utf8(","@),
        canonical::string_bytes(version),
        encode_utf8(",["@),
        canonical::comma_separated(Seq::new(tools.len(), |i: int| tools::descriptor_bytes(tools[i]))),
        encode_utf8("]]"@),
    ]
}

/// The message of a snapshot's digest is its parts one after the other.
proof fn lemma_snapshot_parts(connection: Seq<char>, version: Seq<char>, tools: Seq<DescriptorView>)
    ensures
        tools::snapshot_bytes(connection, version, tools) == in_a_row(
            snapshot_parts(connection, version, tools),
        ),
{
    let p = snapshot_parts(connection, version, tools);
    lemma_first_in_a_row(p);
    lemma_row_step(p, 1);
    lemma_row_step(p, 2);
    lemma_row_step(p, 3);
    lemma_row_step(p, 4);
    lemma_row_step(p, 5);
    lemma_row_step(p, 6);
    assert(p.take(7) =~= p);
}

/// Rows that are the same but for one part differ in that part's bytes.
proof fn lemma_row_replaced(p: Seq<Seq<u8>>, q: Seq<Seq<u8>>, k: int)
    requires
        0 <= k < p.len(),
        p.len() == q.len(),
        in_a_row(p) == in_a_row(q),
        forall|i: int| 0 <= i < p.len() && i != k ==> #[trigger] p[i] == q[i],
    ensures
        p[k] == q[k],
{
    assert(p =~= p.update(k, p[k]));
    assert(q =~= p.update(k, q[k]));
    lemma_joined_parts(p, k, p[k], q[k]);
}

/// The message of a snapshot's digest lists the tools in their order: one more tool comes
/// last.
pub proof fn law_snapshot_messages_keep_the_order(
    connection: Seq<char>,
    version: Seq<char>,
    tools: Seq<DescriptorView>,
    tool: DescriptorView,
)
    ensures
        ({
            let less = tools::snapshot_bytes(connection, version, tools);
            let more = tools::snapshot_bytes(connection, version, tools.push(tool));
            let end = encode_utf8("]]"@);
            exists|open: Seq<u8>|
                less == #[trigger] (open + end) && more == open + (if tools.len() == 0 {
                    tools::descriptor_bytes(tool)
                } else {
                    encode_utf8(","@) + tools::descriptor_bytes(tool)
                }) + end
        }),
{
    let less = tools::snapshot_bytes(connection, version, tools);
    let more = tools::snapshot_bytes(connection, version, tools.push(tool));
    let end = encode_utf8("]]"@);
    let parts = Seq::new(tools.len(), |i: int| tools::descriptor_bytes(tools[i]));
    let longer = Seq::new(
        tools.push(tool).len(),
        |i: int| tools::descriptor_bytes(tools.push(tool)[i]),
    );
    let added = tools::descriptor_bytes(tool);
    assert(longer =~= parts.push(added));
    lemma_one_more(parts, added);
    let head = encode_utf8("["@) + canonical::string_bytes(connection) + encode_utf8(","@)
        + canonical::string_bytes(version) + encode_utf8(",["@);
    let open = head + canonical::comma_separated(parts);
    assert(less =~= open + end);
    if tools.len() == 0 {
        assert(open =~= head);
        assert(more =~= open + added + end);
    } else {
        assert(more =~= open + (encode_utf8(","@) + added) + end);
    }
}

/// The encoding of a descriptor tells apart every field that is encoded differently.
pub proof fn law_descriptor_messages_tell_fields_apart(
    tool: DescriptorView,
    name: Seq<char>,
    description: Option<Seq<char>>,
    schema: JsonTree,
    output: Option<JsonTree>,
    raw: JsonTree,
)
    ensures
        tools::descriptor_bytes(tool) == tools::descriptor_bytes(DescriptorView { name, ..tool })
            ==> outside::json_bytes(JsonTree::Text(tool.name)) == outside::json_bytes(
            JsonTree::Text(name),
        ),
        tools::descriptor_bytes(tool) == tools::descriptor_bytes(
            DescriptorView { description, ..tool },
        ) ==> text_bytes(tool.description) == text_bytes(description),
        tools::descriptor_bytes(tool) == tools::descriptor_bytes(
            DescriptorView { input_schema: schema, ..tool },
        ) ==> outside::json_bytes(tool.input_schema) == outside::json_bytes(schema),
        tools::descriptor_bytes(tool) == tools::descriptor_bytes(
            DescriptorView { output_schema: output, ..tool },
        ) ==> tree_bytes(tool.output_schema) == tree_bytes(output),
        tools::descriptor_bytes(tool) == tools::descriptor_bytes(DescriptorView { raw, ..tool })
            ==> outside::json_bytes(tool.raw) == outside::json_bytes(raw),
{
    let p = descriptor_parts(tool);
    lemma_descriptor_parts(tool);
    let named = DescriptorView { name, ..tool };
    let described = DescriptorView { description, ..tool };
    let shaped = DescriptorView { input_schema: schema, ..tool };
    let answered = DescriptorView { output_schema: output, ..tool };
    let kept = DescriptorView { raw, ..tool };
    if tools::descriptor_bytes(tool) == tools::descriptor_bytes(named) {
        lemma_descriptor_replaced(tool, named, 1);
    }
    if tools::descriptor_bytes(tool) == tools::descriptor_bytes(described) {
        lemma_descriptor_replaced(tool, described, 3);
    }
    if tools::descriptor_bytes(tool) == tools::descriptor_bytes(shaped) {
        lemma_descriptor_replaced(tool, shaped, 5);
    }
    if tools::descriptor_bytes(tool) == tools::descriptor_bytes(answered) {
        lemma_descriptor_replaced(tool, answered, 7);
    }
    if tools::descriptor_bytes(tool) == tools::descriptor_bytes(kept) {
        lemma_descriptor_replaced(tool, kept, 9);
    }
}

/// The parts of the encoding of a descriptor, in their order.
spec fn descriptor_parts(tool: DescriptorView) -> Seq<Seq<u8>> {
    seq![
        encode_utf8("{\"name\":"@),
        canonical::string_bytes(tool.name),
        encode_utf8(",\"description\":"@),
        text_bytes(tool.description),
        encode_utf8(",\"input_schema\":"@),
        outside::json_bytes(tool.input_schema),
        encode_utf8(",\"output_schema\":"@),
        tree_bytes(tool.output_schema),
        encode_utf8(",\"raw\":"@),
        outside::json_bytes(tool.raw),
        encode_utf8("}"@),
    ]
}

/// The encoding of a descriptor is its parts one after the other.
proof fn lemma_descriptor_parts(tool: DescriptorView)
    ensures
        tools::descriptor_bytes(tool) == in_a_row(descriptor_parts(tool)),
{
    let p = descriptor_parts(tool);
    lemma_first_in_a_row(p);
    lemma_row_step(p, 1);
    lemma_row_step(p, 2);
    lemma_row_step(p, 3);
    lemma_row_step(p, 4);
    lemma_row_step(p, 5);
    lemma_row_step(p, 6);
    lemma_row_step(p, 7);
    lemma_row_step(p, 8);
    lemma_row_step(p, 9);
    lemma_row_step(p, 10);
    assert(p.take(11) =~= p);
    assert(canonical::optional_bytes(tool.description) == text_bytes(tool.description));
}

/// Descriptors whose parts are the same but for one differ in that part's bytes.
proof fn lemma_descriptor_replaced(a: DescriptorView, b: DescriptorView, k: int)
    requires
        0 <= k < 11,
        tools::descriptor_bytes(a) == tools::descriptor_bytes(b),
        forall|i: int|
            0 <= i < 11 && i != k ==> #[trigger] descriptor_parts(a)[i] == descriptor_parts(b)[i],
    ensures
        descriptor_parts(a)[k] == descriptor_parts(b)[k],
{
    let p = descriptor_parts(a);
    let q = descriptor_parts(b);
    lemma_descriptor_parts(a);
    lemma_descriptor_parts(b);
    lemma_row_replaced(p, q, k);
}

/// A row starts with its first part.
proof fn lemma_first_in_a_row(parts: Seq<Seq<u8>>)
    requires
        parts.len() > 0,
    ensures
        in_a_row(parts.take(1)) == parts[0],
{
    lemma_row_step(parts, 0);
    assert(in_a_row(parts.take(0)) =~= Seq::<u8>::empty());
    assert(in_a_row(parts.take(0)) + parts[0] =~= parts[0]);
}

/// The encoding of a text that may be absent.
pub open spec fn text_bytes(text: Option<Seq<char>>) -> Seq<u8> {
    match text {
        Some(text) => outside::json_bytes(JsonTree::Text(text)),
        None => outside::json_bytes(JsonTree::Null),
    }
}

/// The encoding of a value that may be absent.
pub open spec fn tree_bytes(tree: Option<JsonTree>) -> Seq<u8> {
    match tree {
        Some(tree) => outside::json_bytes(tree),
        None => outside::json_bytes(JsonTree::Null),
    }
}

/// The message of a registry's digest tells apart names and connections that are encoded
/// differently, and lists them in their order: one more comes last.
pub proof fn law_registry_messages_tell_entries_apart(
    pairs: Seq<(Seq<char>, ConnectionConfig)>,
    i: int,
    name: Seq<char>,
    config: ConnectionConfig,
)
    ensures
        0 <= i < pairs.len() && registry_digest::registry_bytes(pairs)
            == registry_digest::registry_bytes(pairs.update(i, (pairs[i].0, config)))
            ==> registry_digest::connection_bytes(pairs[i].1)
            == registry_digest::connection_bytes(config),
        0 <= i < pairs.len() && registry_digest::registry_bytes(pairs)
            == registry_digest::registry_bytes(pairs.update(i, (name, pairs[i].1)))
            ==> outside::json_bytes(JsonTree::Text(pairs[i].0)) == outside::json_bytes(
            JsonTree::Text(name),
        ),
        exists|open: Seq<u8>|
            registry_digest::registry_bytes(pairs) == #[trigger] (open + encode_utf8("}}"@))
                && registry_digest::registry_bytes(pairs.push((name, config))) == open + (
            if pairs.len() == 0 {
                registry_digest::entry_bytes(name, config)
            } else {
                encode_utf8(","@) + registry_digest::entry_bytes(name, config)
            }) + encode_utf8("}}"@),
{
    let head = encode_utf8("{\"connections\":{"@);
    let end = encode_utf8("}}"@);
    let colon = encode_utf8(":"@);
    let none = Seq::<u8>::empty();
    let parts = Seq::new(
        pairs.len(),
        |i: int| registry_digest::entry_bytes(pairs[i].0, pairs[i].1),
    );
    let list = canonical::comma_separated(parts);
    let whole = registry_digest::registry_bytes(pairs);
    if 0 <= i < pairs.len() {
        let x = pairs[i].0;
        let y = pairs[i].1;
        assert(parts.update(i, registry_digest::entry_bytes(x, y)) =~= parts);
        let p = canonical::string_bytes(x);
        let q = registry_digest::connection_bytes(y);
        if whole == registry_digest::registry_bytes(pairs.update(i, (x, config))) {
            lemma_entry_replaced(pairs, i, (x, config));
            let r = registry_digest::connection_bytes(config);
            assert(p + colon + q + none =~= registry_digest::entry_bytes(x, y));
            assert(p + colon + r + none =~= registry_digest::entry_bytes(x, config));
            lemma_between(p + colon, q, r, none);
        }
        if whole == registry_digest::registry_bytes(pairs.update(i, (name, y))) {
            lemma_entry_replaced(pairs, i, (name, y));
            let r = canonical::string_bytes(name);
            assert(none + p + (colon + q) =~= registry_digest::entry_bytes(x, y));
            assert(none + r + (colon + q) =~= registry_digest::entry_bytes(name, y));
            lemma_between(none, p, r, colon + q);
        }
    }
    let longer = Seq::new(
        pairs.push((name, config)).len(),
        |i: int|
            registry_digest::entry_bytes(
                pairs.push((name, config))[i].0,
                pairs.push((name, config))[i].1,
            ),
    );
    let added = registry_digest::entry_bytes(name, config);
    assert(longer =~= parts.push(added));
    lemma_one_more(parts, added);
    let open = head + list;
    let more = registry_digest::registry_bytes(pairs.push((name, config)));
    assert(whole =~= open + end);
    if pairs.len() == 0 {
        assert(open =~= head);
        assert(more =~= open + added + end);
    } else {
        assert(more =~= open + (encode_utf8(","@) + added) + end);
    }
}

/// Registries that differ in one entry differ in its encoding.
proof fn lemma_entry_replaced(
    pairs: Seq<(Seq<char>, ConnectionConfig)>,
    i: int,
    entry: (Seq<char>, ConnectionConfig),
)
    requires
        0 <= i < pairs.len(),
        registry_digest::registry_bytes(pairs) == registry_digest::registry_bytes(
            pairs.update(i, entry),
        ),
    ensures
        registry_digest::entry_bytes(pairs[i].0, pairs[i].1) == registry_digest::entry_bytes(
            entry.0,
            entry.1,
        ),
{
    let head = encode_utf8("{\"connections\":{"@);
    let end = encode_utf8("}}"@);
    let parts = Seq::new(
        pairs.len(),
        |i: int| registry_digest::entry_bytes(pairs[i].0, pairs[i].1),
    );
    let changed = pairs.update(i, entry);
    let others = Seq::new(
        changed.len(),
        |i: int| registry_digest::entry_bytes(changed[i].0, changed[i].1),
    );
    let new = registry_digest::entry_bytes(entry.0, entry.1);
    let old = registry_digest::entry_bytes(pairs[i].0, pairs[i].1);
    assert(others =~= parts.update(i, new));
    assert(parts.update(i, old) =~= parts);
    lemma_between(
        head,
        canonical::comma_separated(parts),
        canonical::comma_separated(others),
        end,
    );
    lemma_parts(parts, i, old, new);
}

/// The encoding of a list of texts tells apart the items that are encoded differently.
pub proof fn law_list_messages_tell_items_apart(items: Seq<String>, i: int, item: String)
    requires
        0 <= i < items.len(),
        registry_digest::strings_bytes(items) == registry_digest::strings_bytes(
            items.update(i, item),
        ),
    ensures
        outside::json_bytes(JsonTree::Text(items[i]@)) == outside::json_bytes(
            JsonTree::Text(item@),
        ),
{
    let parts = Seq::new(items.len(), |i: int| canonical::string_bytes(items[i]@));
    let changed = items.update(i, item);
    let others = Seq::new(changed.len(), |i: int| canonical::string_bytes(changed[i]@));
    let old = canonical::string_bytes(items[i]@);
    let new = canonical::string_bytes(item@);
    assert(others =~= parts.update(i, new));
    assert(parts.update(i, old) =~= parts);
    lemma_between(
        encode_utf8("["@),
        canonical::comma_separated(parts),
        canonical::comma_separated(others),
        encode_utf8("]"@),
    );
    lemma_parts(parts, i, old, new);
}

/// The encoding of a stdio declaration tells apart every field that is encoded differently.
pub proof fn law_stdio_messages_tell_fields_apart(a: StdioTransportConfig, b: StdioTransportConfig)
    requires
        registry_digest::stdio_bytes(a) == registry_digest::stdio_bytes(b),
    ensures
        a.args@ == b.args@ && a.cwd@ == b.cwd@ && a.inherit_env@ == b.inherit_env@
            ==> outside::json_bytes(JsonTree::Text(a.program@)) == outside::json_bytes(
            JsonTree::Text(b.program@),
        ),
        a.program@ == b.program@ && a.cwd@ == b.cwd@ && a.inherit_env@ == b.inherit_env@
            ==> registry_digest::strings_bytes(a.args@) == registry_digest::strings_bytes(b.args@),
        a.program@ == b.program@ && a.args@ == b.args@ && a.inherit_env@ == b.inherit_env@
            ==> outside::json_bytes(JsonTree::Text(a.cwd@)) == outside::json_bytes(
            JsonTree::Text(b.cwd@),
        ),
        a.program@ == b.program@ && a.args@ == b.args@ && a.cwd@ == b.cwd@
            ==> registry_digest::strings_bytes(a.inherit_env@) == registry_digest::strings_bytes(
            b.inherit_env@,
        ),
{
    let k = encode_utf8("{\"transport\":\"stdio\",\"program\":"@);
    let l = encode_utf8(",\"args\":"@);
    let m = encode_utf8(",\"cwd\":"@);
    let n = encode_utf8(",\"inherit-env\":"@);
    let o = encode_utf8("}"@);
    let p = canonical::string_bytes(a.program@);
    let q = registry_digest::strings_bytes(a.args@);
    let r = canonical::string_bytes(a.cwd@);
    let s = registry_digest::strings_bytes(a.inherit_env@);
    let x = registry_digest::stdio_bytes(a);
    let y = registry_digest::stdio_bytes(b);
    if a.args@ == b.args@ && a.cwd@ == b.cwd@ && a.inherit_env@ == b.inherit_env@ {
        let back = l + q + m + r + n + s + o;
        let t = canonical::string_bytes(b.program@);
        assert(k + p + back =~= x);
        assert(k + t + back =~= y);
        lemma_between(k, p, t, back);
    }
    if a.program@ == b.program@ && a.cwd@ == b.cwd@ && a.inherit_env@ == b.inherit_env@ {
        let back = m + r + n + s + o;
        let t = registry_digest::strings_bytes(b.args@);
        assert(k + p + l + q + back =~= x);
        assert(k + p + l + t + back =~= y);
        lemma_between(k + p + l, q, t, back);
    }
    if a.program@ == b.program@ && a.args@ == b.args@ && a.inherit_env@ == b.inherit_env@ {
        let front = k + p + l + q + m;
        let back = n + s + o;
        let t = canonical::string_bytes(b.cwd@);
        assert(front + r + back =~= x);
        assert(front + t + back =~= y);
        lemma_between(front, r, t, back);
    }
    if a.program@ == b.program@ && a.args@ == b.args@ && a.cwd@ == b.cwd@ {
        let front = k + p + l + q + m + r + n;
        let t = registry_digest::strings_bytes(b.inherit_env@);
        assert(front + s + o =~= x);
        assert(front + t + o =~= y);
        lemma_between(front, s, t, o);
    }
}

/// The encoding of an HTTP declaration tells apart every field that is encoded differently.
pub proof fn law_http_messages_tell_fields_apart(
    a: HttpTransportConfig,
    b: HttpTransportConfig,
    p: HttpAuth,
    q: HttpAuth,
)
    requires
        registry_digest::http_bytes(a, p) == registry_digest::http_bytes(b, q),
    ensures
        a.headers.pairs() == b.headers.pairs() && p == q ==> outside::json_bytes(
            JsonTree::Text(a.url@),
        ) == outside::json_bytes(JsonTree::Text(b.url@)),
        a.url@ == b.url@ && p == q ==> registry_digest::headers_bytes(a.headers.pairs())
            == registry_digest::headers_bytes(b.headers.pairs()),
        a.url@ == b.url@ && a.headers.pairs() == b.headers.pairs()
            ==> registry_digest::auth_bytes(p) == registry_digest::auth_bytes(q),
{
    let k = encode_utf8("{\"transport\":\"http\",\"url\":"@);
    let l = encode_utf8(",\"headers\":"@);
    let m = encode_utf8(",\"auth\":"@);
    let n = encode_utf8("}"@);
    let u = canonical::string_bytes(a.url@);
    let h = registry_digest::headers_bytes(a.headers.pairs());
    let r = registry_digest::auth_bytes(p);
    let x = registry_digest::http_bytes(a, p);
    let y = registry_digest::http_bytes(b, q);
    if a.headers.pairs() == b.headers.pairs() && p == q {
        let back = l + h + m + r + n;
        let t = canonical::string_bytes(b.url@);
        assert(k + u + back =~= x);
        assert(k + t + back =~= y);
        lemma_between(k, u, t, back);
    }
    if a.url@ == b.url@ && p == q {
        let back = m + r + n;
        let t = registry_digest::headers_bytes(b.headers.pairs());
        assert(k + u + l + h + back =~= x);
        assert(k + u + l + t + back =~= y);
        lemma_between(k + u + l, h, t, back);
    }
    if a.url@ == b.url@ && a.headers.pairs() == b.headers.pairs() {
        let front = k + u + l + h + m;
        let t = registry_digest::auth_bytes(q);
        assert(front + r + n =~= x);
        assert(front + t + n =~= y);
        lemma_between(front, r, t, n);
    }
}

/// The encoding of headers tells apart the names and values that are encoded differently.
pub proof fn law_header_messages_tell_headers_apart(
    pairs: Seq<(Seq<char>, String)>,
    i: int,
    name: Seq<char>,
    value: String,
)
    requires
        0 <= i < pairs.len(),
    ensures
        registry_digest::headers_bytes(pairs) == registry_digest::headers_bytes(
            pairs.update(i, (name, pairs[i].1)),
        ) ==> outside::json_bytes(JsonTree::Text(pairs[i].0)) == outside::json_bytes(
            JsonTree::Text(name),
        ),
        registry_digest::headers_bytes(pairs) == registry_digest::headers_bytes(
            pairs.update(i, (pairs[i].0, value)),
        ) ==> outside::json_bytes(JsonTree::Text(pairs[i].1@)) == outside::json_bytes(
            JsonTree::Text(value@),
        ),
{
    let colon = encode_utf8(":"@);
    let none = Seq::<u8>::empty();
    let p = canonical::string_bytes(pairs[i].0);
    let q = canonical::string_bytes(pairs[i].1@);
    if registry_digest::headers_bytes(pairs) == registry_digest::headers_bytes(
        pairs.update(i, (name, pairs[i].1)),
    ) {
        lemma_header_replaced(pairs, i, (name, pairs[i].1));
        let r = canonical::string_bytes(name);
        assert(none + p + (colon + q) =~= registry_digest::header_bytes(pairs[i].0, pairs[i].1@));
        assert(none + r + (colon + q) =~= registry_digest::header_bytes(name, pairs[i].1@));
        lemma_between(none, p, r, colon + q);
    }
    if registry_digest::headers_bytes(pairs) == registry_digest::headers_bytes(
        pairs.update(i, (pairs[i].0, value)),
    ) {
        lemma_header_replaced(pairs, i, (pairs[i].0, value));
        let r = canonical::string_bytes(value@);
        assert(p + colon + q + none =~= registry_digest::header_bytes(pairs[i].0, pairs[i].1@));
        assert(p + colon + r + none =~= registry_digest::header_bytes(pairs[i].0, value@));
        lemma_between(p + colon, q, r, none);
    }
}

/// Headers that differ in one entry differ in its encoding.
proof fn lemma_header_replaced(pairs: Seq<(Seq<char>, String)>, i: int, entry: (Seq<char>, String))
    requires
        0 <= i < pairs.len(),
        registry_digest::headers_bytes(pairs) == registry_digest::headers_bytes(
            pairs.update(i, entry),
        ),
    ensures
        registry_digest::header_bytes(pairs[i].0, pairs[i].1@) == registry_digest::header_bytes(
            entry.0,
            entry.1@,
        ),
{
    let parts = Seq::new(
        pairs.len(),
        |i: int| registry_digest::header_bytes(pairs[i].0, pairs[i].1@),
    );
    let changed = pairs.update(i, entry);
    let others = Seq::new(
        changed.len(),
        |i: int| registry_digest::header_bytes(changed[i].0, changed[i].1@),
    );
    let old = registry_digest::header_bytes(pairs[i].0, pairs[i].1@);
    let new = registry_digest::header_bytes(entry.0, entry.1@);
    assert(others =~= parts.update(i, new));
    assert(parts.update(i, old) =~= parts);
    lemma_between(
        encode_utf8("{"@),
        canonical::comma_separated(parts),
        canonical::comma_separated(others),
        encode_utf8("}"@),
    );
    lemma_parts(parts, i, old, new);
}

/// The encoding of a source tells apart the names, paths and pointers that are encoded
/// differently.
pub proof fn law_source_messages_tell_fields_apart(a: BearerSource, b: BearerSource)
    requires
        registry_digest::source_members(a) == registry_digest::source_members(b),
    ensures
        match (a, b) {
            (
                BearerSource::Environment { environment: x },
                BearerSource::Environment { environment: y },
            ) => outside::json_bytes(JsonTree::Text(x@)) == outside::json_bytes(
                JsonTree::Text(y@),
            ),
            (
                BearerSource::JsonFile { path: p, pointer: q },
                BearerSource::JsonFile { path: r, pointer: s },
            ) => (q@ == s@ ==> outside::json_bytes(JsonTree::Text(p@)) == outside::json_bytes(
                JsonTree::Text(r@),
            )) && (p@ == r@ ==> outside::json_bytes(JsonTree::Text(q@)) == outside::json_bytes(
                JsonTree::Text(s@),
            )),
            _ => true,
        },
{
    let none = Seq::<u8>::empty();
    let x = registry_digest::source_members(a);
    let y = registry_digest::source_members(b);
    match (a, b) {
        (
            BearerSource::Environment { environment: p },
            BearerSource::Environment { environment: q },
        ) => {
            let head = encode_utf8("\"source\":\"environment\",\"environment\":"@);
            assert(head + canonical::string_bytes(p@) + none =~= x);
            assert(head + canonical::string_bytes(q@) + none =~= y);
            lemma_between(head, canonical::string_bytes(p@), canonical::string_bytes(q@), none);
        },
        (
            BearerSource::JsonFile { path: p, pointer: q },
            BearerSource::JsonFile { path: r, pointer: s },
        ) => {
            let head = encode_utf8("\"source\":\"json-file\",\"path\":"@);
            let middle = encode_utf8(",\"pointer\":"@);
            let i = canonical::string_bytes(p@);
            let j = canonical::string_bytes(q@);
            let k = canonical::string_bytes(r@);
            let l = canonical::string_bytes(s@);
            if q@ == s@ {
                assert(head + i + (middle + j) =~= x);
                assert(head + k + (middle + j) =~= y);
                lemma_between(head, i, k, middle + j);
            }
            if p@ == r@ {
                assert(head + i + middle + j + none =~= x);
                assert(head + i + middle + l + none =~= y);
                lemma_between(head + i + middle, j, l, none);
            }
        },
        _ => {},
    }
}

/// The encoding of a policy tells apart the sources and settings that are encoded differently.
pub proof fn law_policy_messages_tell_settings_apart(a: HttpAuth, b: HttpAuth)
    requires
        registry_digest::auth_bytes(a) == registry_digest::auth_bytes(b),
    ensures
        match (a, b) {
            (HttpAuth::Bearer { source: x }, HttpAuth::Bearer { source: y }) => {
                registry_digest::source_members(x) == registry_digest::source_members(y)
            },
            (
                HttpAuth::OAuth { config: x, client_secret: p },
                HttpAuth::OAuth { config: y, client_secret: q },
            ) => (p == q ==> registry_digest::oauth_members(x) == registry_digest::oauth_members(
                y,
            )) && (x == y ==> registry_digest::optional_source_bytes(p)
                == registry_digest::optional_source_bytes(q)),
            _ => true,
        },
{
    let end = encode_utf8("}"@);
    let x = registry_digest::auth_bytes(a);
    let y = registry_digest::auth_bytes(b);
    match (a, b) {
        (HttpAuth::Bearer { source: p }, HttpAuth::Bearer { source: q }) => {
            lemma_between(
                encode_utf8("{\"kind\":\"bearer\","@),
                registry_digest::source_members(p),
                registry_digest::source_members(q),
                end,
            );
        },
        (
            HttpAuth::OAuth { config: p, client_secret: q },
            HttpAuth::OAuth { config: r, client_secret: s },
        ) => {
            let head = encode_utf8("{\"kind\":\"oauth\","@);
            let middle = encode_utf8(",\"client_secret\":"@);
            let i = registry_digest::oauth_members(p);
            let j = registry_digest::optional_source_bytes(q);
            let k = registry_digest::oauth_members(r);
            let l = registry_digest::optional_source_bytes(s);
            if q == s {
                let back = middle + j + end;
                assert(head + i + back =~= x);
                assert(head + k + back =~= y);
                lemma_between(head, i, k, back);
            }
            if p == r {
                assert(head + i + middle + j + end =~= x);
                assert(head + i + middle + l + end =~= y);
                lemma_between(head + i + middle, j, l, end);
            }
        },
        _ => {},
    }
}

/// Whether two configurations have the same settings but for the one under a number.
pub open spec fn same_but(a: OAuthConfig, b: OAuthConfig, which: nat) -> bool {
    &&& which == 0 || a.resource_url@ == b.resource_url@
    &&& which == 1 || a.redirect_uri@ == b.redirect_uri@
    &&& which == 2 || a.client_name@ == b.client_name@
    &&& which == 3 || a@.client_id == b@.client_id
    &&& which == 4 || a@.client_metadata_url == b@.client_metadata_url
    &&& which == 5 || a.scopes@ == b.scopes@
    &&& which == 6 || a.application_type@ == b.application_type@
}

/// The encoding of an OAuth configuration tells apart every setting that is encoded
/// differently.
pub proof fn law_oauth_messages_tell_settings_apart(a: OAuthConfig, b: OAuthConfig, which: nat)
    requires
        registry_digest::oauth_members(a) == registry_digest::oauth_members(b),
        same_but(a, b, which),
    ensures
        outside::json_bytes(JsonTree::Text(a.resource_url@)) == outside::json_bytes(
            JsonTree::Text(b.resource_url@),
        ),
        outside::json_bytes(JsonTree::Text(a.redirect_uri@)) == outside::json_bytes(
            JsonTree::Text(b.redirect_uri@),
        ),
        outside::json_bytes(JsonTree::Text(a.client_name@)) == outside::json_bytes(
            JsonTree::Text(b.client_name@),
        ),
        text_bytes(a@.client_id) == text_bytes(b@.client_id),
        text_bytes(a@.client_metadata_url) == text_bytes(b@.client_metadata_url),
        registry_digest::strings_bytes(a.scopes@) == registry_digest::strings_bytes(b.scopes@),
        outside::json_bytes(JsonTree::Text(a.application_type@)) == outside::json_bytes(
            JsonTree::Text(b.application_type@),
        ),
{
    let p = oauth_parts(a);
    let q = oauth_parts(b);
    lemma_oauth_parts(a);
    lemma_oauth_parts(b);
    assert forall|i: int| 0 <= i < 14 && i != 2 * which + 1 implies p[i] == q[i] by {}
    if which < 7 {
        let k = 2 * (which as int) + 1;
        lemma_row_replaced(p, q, k);
    }
}

/// The parts of the encoding of an OAuth configuration, in their order.
spec fn oauth_parts(config: OAuthConfig) -> Seq<Seq<u8>> {
    client_parts(config) + registration_parts(config)
}

/// The parts that say where the client goes and what it is called.
spec fn client_parts(config: OAuthConfig) -> Seq<Seq<u8>> {
    seq![
        encode_utf8("\"resource-url\":"@),
        canonical::string_bytes(config.resource_url@),
        encode_utf8(",\"redirect-uri\":"@),
        canonical::string_bytes(config.redirect_uri@),
        encode_utf8(",\"client-name\":"@),
        canonical::string_bytes(config.client_name@),
    ]
}

/// The parts that say how the client is registered.
spec fn registration_parts(config: OAuthConfig) -> Seq<Seq<u8>> {
    seq![
        encode_utf8(",\"client-id\":"@),
        text_bytes(config@.client_id),
        encode_utf8(",\"client-metadata-url\":"@),
        text_bytes(config@.client_metadata_url),
        encode_utf8(",\"scopes\":"@),
        registry_digest::strings_bytes(config.scopes@),
        encode_utf8(",\"application-type\":"@),
        canonical::string_bytes(config.application_type@),
    ]
}

/// Parts one after the other.
spec fn in_a_row(parts: Seq<Seq<u8>>) -> Seq<u8>
    decreases parts.len(),
{
    if parts.len() == 0 {
        Seq::empty()
    } else {
        in_a_row(parts.drop_last()) + parts.last()
    }
}

/// The encoding of an OAuth configuration is its parts one after the other.
proof fn lemma_oauth_parts(config: OAuthConfig)
    ensures
        registry_digest::oauth_members(config) == in_a_row(oauth_parts(config)),
{
    let p = client_parts(config);
    let q = registration_parts(config);
    lemma_first_in_a_row(p);
    lemma_row_step(p, 1);
    lemma_row_step(p, 2);
    lemma_row_step(p, 3);
    lemma_row_step(p, 4);
    lemma_row_step(p, 5);
    assert(p.take(6) =~= p);
    lemma_registration_parts(config);
    lemma_rows_joined(p, q);
}

/// The encoding of a client's registration is its parts one after the other.
proof fn lemma_registration_parts(config: OAuthConfig)
    ensures
        registry_digest::oauth_registration_members(config) == in_a_row(
            registration_parts(config),
        ),
{
    let q = registration_parts(config);
    lemma_first_in_a_row(q);
    lemma_row_step(q, 1);
    lemma_row_step(q, 2);
    lemma_row_step(q, 3);
    lemma_row_step(q, 4);
    lemma_row_step(q, 5);
    lemma_row_step(q, 6);
    lemma_row_step(q, 7);
    assert(q.take(8) =~= q);
    assert(canonical::optional_bytes(error::optional_text(config.client_id)) == q[1]);
    assert(canonical::optional_bytes(error::optional_text(config.client_metadata_url)) == q[3]);
}

/// Two rows one after the other are one row.
proof fn lemma_rows_joined(a: Seq<Seq<u8>>, b: Seq<Seq<u8>>)
    ensures
        in_a_row(a + b) == in_a_row(a) + in_a_row(b),
    decreases b.len(),
{
    if b.len() == 0 {
        assert(a + b =~= a);
        assert(in_a_row(a) + in_a_row(b) =~= in_a_row(a));
    } else {
        lemma_rows_joined(a, b.drop_last());
        assert((a + b).drop_last() =~= a + b.drop_last());
        assert((a + b).last() == b.last());
        canonical::lemma_append(in_a_row(a), in_a_row(b.drop_last()), b.last());
    }
}

/// One more part in a row.
proof fn lemma_row_step(parts: Seq<Seq<u8>>, i: int)
    requires
        0 <= i < parts.len(),
    ensures
        in_a_row(parts.take(i + 1)) == in_a_row(parts.take(i)) + parts[i],
{
    assert(parts.take(i + 1).drop_last() =~= parts.take(i));
}

/// Rows that differ in one part differ in that part's bytes.
proof fn lemma_joined_parts(parts: Seq<Seq<u8>>, i: int, a: Seq<u8>, b: Seq<u8>)
    requires
        0 <= i < parts.len(),
        in_a_row(parts.update(i, a)) == in_a_row(parts.update(i, b)),
    ensures
        a == b,
    decreases parts.len(),
{
    let x = parts.update(i, a);
    let y = parts.update(i, b);
    let none = Seq::<u8>::empty();
    let front = parts.drop_last();
    if i == parts.len() - 1 {
        assert(x.drop_last() =~= front);
        assert(y.drop_last() =~= front);
        assert(in_a_row(front) + a + none =~= in_a_row(x));
        assert(in_a_row(front) + b + none =~= in_a_row(y));
        lemma_between(in_a_row(front), a, b, none);
    } else {
        assert(x.drop_last() =~= front.update(i, a));
        assert(y.drop_last() =~= front.update(i, b));
        let p = in_a_row(front.update(i, a));
        let q = in_a_row(front.update(i, b));
        assert(none + p + parts.last() =~= in_a_row(x));
        assert(none + q + parts.last() =~= in_a_row(y));
        lemma_between(none, p, q, parts.last());
        lemma_joined_parts(front, i, a, b);
    }
}

/// A secret that is declared is encoded as an object of its own, and one that is not as null.
pub proof fn law_secrets_are_encoded_as_objects(source: BearerSource)
    ensures
        registry_digest::optional_source_bytes(Some(source)) == encode_utf8("{"@)
            + registry_digest::source_members(source) + encode_utf8("}"@),
        registry_digest::optional_source_bytes(None) == outside::json_bytes(JsonTree::Null),
{
}

} // verus!
