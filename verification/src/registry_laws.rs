//! What holds of registries and their documents.

use vstd::prelude::*;

use crate::bearer;
use crate::canonical;
use crate::client;
use crate::headers;
use crate::identity;
use crate::json::JsonTree;
use crate::oauth;
use crate::refusal;
use crate::registry;
use crate::registry::{ConnectionConfig, DeclarationView, HttpAuth, Registry};
use crate::registry_digest;
use crate::schema;
use crate::text_map;
use crate::transport::StdioTransportConfig;

verus! {

/// Every field that the schema names in an authentication policy.
pub open spec fn auth_fields() -> Seq<Seq<char>> {
    schema::oauth_fields() + seq!["source"@, "environment"@, "path"@, "pointer"@]
}

/// A table that is accepted holds only fields that are allowed.
proof fn lemma_confined(tree: JsonTree, name: Seq<char>, allowed: Seq<Seq<char>>, key: Seq<char>)
    requires
        schema::table_complaint(tree, name, allowed) is None,
        tree.member(key) is Some,
    ensures
        allowed.contains(key),
{
    assert(!schema::stranger(tree, allowed, key));
}

/// A source that is accepted holds nothing but the fields of a source.
pub proof fn law_sources_hold_only_their_fields(
    tree: JsonTree,
    name: Seq<char>,
    tagged: bool,
    key: Seq<char>,
)
    requires
        schema::read_source(tree, name, tagged) is Ok,
        tree.member(key) is Some,
    ensures
        key == "kind"@ && tagged || key == "source"@ || key == "environment"@ || key == "path"@
            || key == "pointer"@,
{
    let source = schema::required_text(tree, "source"@)->Ok_0;
    if source == "environment"@ {
        lemma_confined(tree, name, schema::environment_fields(tagged), key);
    } else {
        lemma_confined(tree, name, schema::file_fields(tagged), key);
    }
}

/// An authentication policy that is accepted holds nothing but the fields that the schema
/// names, none of which is a credential value.
pub proof fn law_policies_hold_no_inline_credential(tree: JsonTree, key: Seq<char>)
    requires
        schema::read_auth(tree) is Ok,
        tree.member(key) is Some,
    ensures
        auth_fields().contains(key),
{
    let kind = schema::required_text(tree, "kind"@)->Ok_0;
    let fields = auth_fields();
    assert(fields[0] == "kind"@);
    assert(fields[9] == "source"@);
    assert(fields[10] == "environment"@);
    assert(fields[11] == "path"@);
    assert(fields[12] == "pointer"@);
    if kind == "none"@ {
        lemma_confined(tree, "auth"@, seq!["kind"@], key);
        assert(seq!["kind"@][0] == "kind"@);
    } else if kind == "bearer"@ {
        law_sources_hold_only_their_fields(tree, "auth"@, true, key);
    } else {
        lemma_confined(tree, "auth"@, schema::oauth_fields(), key);
        let i = choose|i: int|
            0 <= i < schema::oauth_fields().len() && schema::oauth_fields()[i] == key;
        assert(fields[i] == key);
    }
}

/// A document that is read has no field but the table of connections, and every connection
/// in that table is declared as the schema has it.
pub proof fn law_documents_are_read_whole(tree: JsonTree, key: Seq<char>)
    requires
        schema::read_document(tree) is Ok,
    ensures
        tree.member(key) is Some ==> key == "connections"@,
        match tree.member("connections"@) {
            Some(JsonTree::Object(members)) => {
                &&& schema::read_document(tree)->Ok_0.dom() == members.dom()
                &&& members.contains_key(key) ==> schema::read_declaration(members[key]) == Ok::<
                    _,
                    Seq<char>,
                >(schema::read_document(tree)->Ok_0[key])
            },
            Some(_) => false,
            None => schema::read_document(tree)->Ok_0 == Map::<Seq<char>, DeclarationView>::empty(),
        },
{
    if tree.member(key) is Some {
        lemma_confined(tree, "registry"@, seq!["connections"@], key);
    }
    if let Some(JsonTree::Object(members)) = tree.member("connections"@) {
        assert(schema::read_document(tree)->Ok_0.dom() =~= members.dom());
        if members.contains_key(key) {
            assert(!schema::undeclared(members, key));
        }
    }
}

/// Nothing speaks against the first `n` entries of a registry that was validated.
proof fn lemma_validated(registry: Registry, n: int)
    requires
        text_map::ascending(registry.connections.pairs()),
        registry::registry_refusal(registry@) is None,
        0 <= n <= registry.connections.pairs().len(),
    ensures
        forall|i: int|
            0 <= i < n ==> registry::connection_refusal(
                (#[trigger] registry.connections.pairs()[i]).0,
                registry.connections.pairs()[i].1@,
            ) is None,
    decreases n,
{
    if n > 0 {
        lemma_validated(registry, n - 1);
        let (name, config) = registry.connections.pairs()[n - 1];
        if registry::connection_refusal(name, config@) is Some {
            registry::lemma_first_refused(registry, n - 1);
        }
    }
}

/// What is validated bears the name of a connection, and nothing speaks against any entry.
pub proof fn law_validated_entries_are_sound(registry: Registry, name: Seq<char>)
    requires
        text_map::ascending(registry.connections.pairs()),
        registry::registry_refusal(registry@) is None,
        registry@.contains_key(name),
    ensures
        identity::connection_name(name),
        registry::connection_refusal(name, registry@[name]) is None,
{
    lemma_validated(registry, registry.connections.pairs().len() as int);
    registry::lemma_entry(registry, name);
}

/// A stdio declaration that was validated can be launched.
pub proof fn law_validated_declarations_launch(name: Seq<char>, config: StdioTransportConfig)
    requires
        registry::connection_refusal(
            name,
            ConnectionConfig::Stdio { transport_config: config }@,
        ) is None,
    ensures
        client::launch_refusal(config) is None,
{
    let texts = oauth::all_texts(config.inherit_env@);
    let checked = Seq::new(texts.len(), |i: int| bearer::variable_refusal(texts[i]));
    let launched = client::inherited_refusals(config.inherit_env@);
    refusal::lemma_first_none(checked);
    refusal::lemma_first_none(launched);
    assert forall|i: int| 0 <= i < launched.len() implies (#[trigger] launched[i]) is None by {
        assert(checked[i] is None);
    }
}

/// Whether every header table of a registry is listed in the order of its keys, as every map
/// is.
pub open spec fn listed_in_order(registry: Registry) -> bool {
    &&& text_map::ascending(registry.connections.pairs())
    &&& forall|i: int|
        0 <= i < registry.connections.pairs().len() ==> config_in_order(
            (#[trigger] registry.connections.pairs()[i]).1,
        )
}

/// Whether the headers of a connection are listed in the order of their names.
pub open spec fn config_in_order(config: ConnectionConfig) -> bool {
    match config {
        ConnectionConfig::Http { transport_config, .. } => text_map::ascending(
            transport_config.headers.pairs(),
        ),
        ConnectionConfig::Stdio { .. } => true,
    }
}

/// Connections with the same contents have the same encoding.
proof fn lemma_connection_bytes(a: ConnectionConfig, b: ConnectionConfig)
    requires
        a@ == b@,
        config_in_order(a),
        config_in_order(b),
    ensures
        registry_digest::connection_bytes(a) == registry_digest::connection_bytes(b),
{
    match (a, b) {
        (
            ConnectionConfig::Http { transport_config: x, auth: p },
            ConnectionConfig::Http { transport_config: y, auth: q },
        ) => {
            lemma_headers_bytes(x.headers.pairs(), y.headers.pairs());
            lemma_auth_bytes(p, q);
        },
        (
            ConnectionConfig::Stdio { transport_config: x },
            ConnectionConfig::Stdio { transport_config: y },
        ) => {
            lemma_strings_bytes(x.args@, y.args@);
            lemma_strings_bytes(x.inherit_env@, y.inherit_env@);
        },
        _ => {},
    }
}

/// Headers with the same contents have the same encoding.
proof fn lemma_headers_bytes(a: Seq<(Seq<char>, String)>, b: Seq<(Seq<char>, String)>)
    requires
        text_map::ascending(a),
        text_map::ascending(b),
        headers::texts(text_map::listed(a)) == headers::texts(text_map::listed(b)),
    ensures
        registry_digest::headers_bytes(a) == registry_digest::headers_bytes(b),
{
    let view = |text: String| text@;
    text_map::lemma_seen(a, view);
    text_map::lemma_seen(b, view);
    text_map::law_listing_is_unique(text_map::seen(a, view), text_map::seen(b, view));
    assert(a.len() == text_map::seen(a, view).len());
    assert(b.len() == text_map::seen(b, view).len());
    assert forall|i: int| 0 <= i < a.len() implies a[i].0 == b[i].0 && a[i].1@ == b[i].1@ by {
        assert(text_map::seen(a, view)[i] == text_map::seen(b, view)[i]);
    }
    assert(Seq::new(a.len(), |i: int| registry_digest::header_bytes(a[i].0, a[i].1@)) =~= Seq::new(
        b.len(),
        |i: int| registry_digest::header_bytes(b[i].0, b[i].1@),
    ));
}

/// Lists of the same texts have the same encoding.
proof fn lemma_strings_bytes(a: Seq<String>, b: Seq<String>)
    requires
        oauth::all_texts(a) == oauth::all_texts(b),
    ensures
        registry_digest::strings_bytes(a) == registry_digest::strings_bytes(b),
{
    assert(a.len() == oauth::all_texts(a).len());
    assert(b.len() == oauth::all_texts(b).len());
    assert forall|i: int| 0 <= i < a.len() implies a[i]@ == b[i]@ by {
        assert(oauth::all_texts(a)[i] == oauth::all_texts(b)[i]);
    }
    assert(Seq::new(a.len(), |i: int| canonical::string_bytes(a[i]@)) =~= Seq::new(
        b.len(),
        |i: int| canonical::string_bytes(b[i]@),
    ));
}

/// Authentication policies with the same contents have the same encoding.
proof fn lemma_auth_bytes(a: HttpAuth, b: HttpAuth)
    requires
        a@ == b@,
    ensures
        registry_digest::auth_bytes(a) == registry_digest::auth_bytes(b),
{
    match (a, b) {
        (
            HttpAuth::OAuth { config: x, client_secret: p },
            HttpAuth::OAuth { config: y, client_secret: q },
        ) => {
            lemma_strings_bytes(x.scopes@, y.scopes@);
            match (p, q) {
                (Some(p), Some(q)) => {
                    assert(p@ == q@);
                },
                _ => {},
            }
        },
        _ => {},
    }
}

/// The digest of a registry follows from its contents: registries that declare the same
/// connections have the same digest.
pub proof fn law_equal_registries_have_equal_digests(a: Registry, b: Registry)
    requires
        listed_in_order(a),
        listed_in_order(b),
        a@ == b@,
    ensures
        registry_digest::registry_bytes(a.connections.pairs()) == registry_digest::registry_bytes(
            b.connections.pairs(),
        ),
{
    let view = |config: ConnectionConfig| config@;
    let p = a.connections.pairs();
    let q = b.connections.pairs();
    text_map::lemma_seen(p, view);
    text_map::lemma_seen(q, view);
    assert(a@ == text_map::listed(text_map::seen(p, view)));
    assert(b@ == text_map::listed(text_map::seen(q, view)));
    text_map::law_listing_is_unique(text_map::seen(p, view), text_map::seen(q, view));
    assert(p.len() == text_map::seen(p, view).len());
    assert(q.len() == text_map::seen(q, view).len());
    let x = Seq::new(p.len(), |i: int| registry_digest::entry_bytes(p[i].0, p[i].1));
    let y = Seq::new(q.len(), |i: int| registry_digest::entry_bytes(q[i].0, q[i].1));
    assert forall|i: int| 0 <= i < p.len() implies x[i] == y[i] by {
        assert(text_map::seen(p, view)[i] == text_map::seen(q, view)[i]);
        lemma_connection_bytes(p[i].1, q[i].1);
    }
    assert(x =~= y);
}

} // verus!
