//! What declared connections owe to the document that declares them.

use vstd::prelude::*;

use crate::bearer;
use crate::bearer::{BearerSource, SourceView};
use crate::error::ErrorView;
use crate::identity;
use crate::json::JsonTree;
use crate::oauth::OAuthConfig;
use crate::refusal;
use crate::registry;
use crate::registry::{AuthView, ConnectionConfig, DeclarationView, HttpAuth, Registry};
use crate::schema;
use crate::text_map;

verus! {

/// The text under a key that has to be there.
pub open spec fn text_is(members: Map<Seq<char>, JsonTree>, key: Seq<char>, text: Seq<char>) -> bool {
    members.contains_key(key) && members[key] == JsonTree::Text(text)
}

/// The text under a key that may be there.
pub open spec fn text_may_be(
    members: Map<Seq<char>, JsonTree>,
    key: Seq<char>,
    text: Option<Seq<char>>,
) -> bool {
    if members.contains_key(key) {
        text is Some && members[key] == JsonTree::Text(text->0)
    } else {
        text is None
    }
}

/// The text under a key, or another where there is none.
pub open spec fn text_defaults(
    members: Map<Seq<char>, JsonTree>,
    key: Seq<char>,
    default: Seq<char>,
    text: Seq<char>,
) -> bool {
    if members.contains_key(key) {
        members[key] == JsonTree::Text(text)
    } else {
        text == default
    }
}

/// The texts of the list under a key, item by item; none where there is no list.
pub open spec fn texts_are(
    members: Map<Seq<char>, JsonTree>,
    key: Seq<char>,
    texts: Seq<Seq<char>>,
) -> bool {
    if members.contains_key(key) {
        &&& members[key] is Array
        &&& members[key]->Array_0.len() == texts.len()
        &&& forall|i: int|
            0 <= i < texts.len() ==> (#[trigger] members[key]->Array_0[i]) == JsonTree::Text(
                texts[i],
            )
    } else {
        texts.len() == 0
    }
}

/// The texts of the table under a key, name by name; none where there is no table.
pub open spec fn table_is(
    members: Map<Seq<char>, JsonTree>,
    key: Seq<char>,
    texts: Map<Seq<char>, Seq<char>>,
) -> bool {
    if members.contains_key(key) {
        &&& members[key] is Object
        &&& forall|name: Seq<char>|
            members[key]->Object_0.contains_key(name) <==> #[trigger] texts.contains_key(name)
        &&& forall|name: Seq<char>|
            texts.contains_key(name) ==> members[key]->Object_0[name] == JsonTree::Text(
                #[trigger] texts[name],
            )
    } else {
        forall|name: Seq<char>| !#[trigger] texts.contains_key(name)
    }
}

/// Whether a table holds no key but those listed.
pub open spec fn only(members: Map<Seq<char>, JsonTree>, keys: Seq<Seq<char>>) -> bool {
    forall|key: Seq<char>| #[trigger] members.contains_key(key) ==> keys.contains(key)
}

/// Whether a key is absent or holds a text.
pub open spec fn text_fits(members: Map<Seq<char>, JsonTree>, key: Seq<char>) -> bool {
    members.contains_key(key) ==> members[key] is Text
}

/// Whether a key is absent or holds a list of texts.
pub open spec fn list_fits(members: Map<Seq<char>, JsonTree>, key: Seq<char>) -> bool {
    members.contains_key(key) ==> members[key] is Array && forall|i: int|
        0 <= i < members[key]->Array_0.len() ==> (#[trigger] members[key]->Array_0[i]) is Text
}

/// Whether a key is absent or holds a table of texts.
pub open spec fn table_fits(members: Map<Seq<char>, JsonTree>, key: Seq<char>) -> bool {
    members.contains_key(key) ==> members[key] is Object && forall|name: Seq<char>| #[trigger]
        members[key]->Object_0.contains_key(name) ==> members[key]->Object_0[name] is Text
}

/// A list is read exactly where all its items are texts, and then item by item.
proof fn lemma_items(items: Seq<JsonTree>)
    ensures
        match schema::item_texts(items) {
            Some(texts) => texts.len() == items.len() && forall|i: int|
                0 <= i < items.len() ==> (#[trigger] items[i]) == JsonTree::Text(texts[i]),
            None => exists|i: int| 0 <= i < items.len() && (#[trigger] items[i]) !is Text,
        },
    decreases items.len(),
{
    if items.len() > 0 {
        let front = items.drop_last();
        lemma_items(front);
        match schema::item_texts(items) {
            Some(texts) => {
                let before = schema::item_texts(front)->0;
                assert forall|i: int| 0 <= i < items.len() implies (#[trigger] items[i])
                    == JsonTree::Text(texts[i]) by {
                    if i < front.len() {
                        assert(front[i] == items[i]);
                        assert(texts[i] == before[i]);
                    }
                }
            },
            None => {
                if schema::item_texts(front) is None {
                    let i = choose|i: int| 0 <= i < front.len() && (#[trigger] front[i]) !is Text;
                    assert(items[i] !is Text);
                } else {
                    assert(items[items.len() - 1] !is Text);
                }
            },
        }
    }
}

/// Lists under a key are read item by item, exactly where all items are texts.
proof fn lemma_list(members: Map<Seq<char>, JsonTree>, key: Seq<char>)
    ensures
        match schema::text_list(JsonTree::Object(members), key) {
            Ok(texts) => list_fits(members, key) && texts_are(members, key, texts),
            Err(_) => !list_fits(members, key),
        },
{
    if members.contains_key(key) && members[key] is Array {
        let items = members[key]->Array_0;
        lemma_items(items);
    }
}

/// Tables under a key are read name by name, exactly where all values are texts.
proof fn lemma_table(members: Map<Seq<char>, JsonTree>, key: Seq<char>)
    ensures
        match schema::text_table(JsonTree::Object(members), key) {
            Ok(texts) => table_fits(members, key) && table_is(members, key, texts),
            Err(_) => !table_fits(members, key),
        },
{
    if members.contains_key(key) && members[key] is Object {
        let inner = members[key]->Object_0;
        match schema::text_table(JsonTree::Object(members), key) {
            Ok(texts) => {
                assert forall|name: Seq<char>| #[trigger]
                    inner.contains_key(name) implies inner[name] is Text by {}
            },
            Err(_) => {
                let name = choose|name: Seq<char>|
                    inner.contains_key(name) && (#[trigger] inner[name]) !is Text;
                assert(inner.contains_key(name));
            },
        }
    }
}

/// A table is accepted exactly where it holds no key but those that are allowed.
proof fn lemma_only(members: Map<Seq<char>, JsonTree>, name: Seq<char>, keys: Seq<Seq<char>>)
    ensures
        schema::table_complaint(JsonTree::Object(members), name, keys) is None <==> only(
            members,
            keys,
        ),
{
    let tree = JsonTree::Object(members);
    if schema::confined(tree, keys) {
        assert forall|key: Seq<char>| #[trigger] members.contains_key(key) implies keys.contains(
            key,
        ) by {
            assert(!schema::stranger(tree, keys, key));
        }
    }
    if only(members, keys) {
        assert forall|key: Seq<char>| !#[trigger] schema::stranger(tree, keys, key) by {
            if members.contains_key(key) {
                assert(keys.contains(key));
            }
        }
    }
}

/// What is wrong with a field is told by its key: that it is missing, that it is no text, no
/// list of texts or no table of texts, or that it is none of those allowed.
pub proof fn law_complaints_name_the_field(
    members: Map<Seq<char>, JsonTree>,
    key: Seq<char>,
    name: Seq<char>,
    allowed: Seq<Seq<char>>,
)
    ensures
        ({
            let tree = JsonTree::Object(members);
            let there = members.contains_key(key);
            &&& !there ==> schema::required_text(tree, key) == Err::<Seq<char>, _>(
                "missing field `"@ + key + "`"@,
            )
            &&& there && members[key] !is Text ==> schema::required_text(tree, key) == Err::<
                Seq<char>,
                _,
            >("field `"@ + key + "` is not a string"@)
            &&& there && members[key] !is Text ==> schema::possible_text(tree, key) == Err::<
                Option<Seq<char>>,
                _,
            >("field `"@ + key + "` is not a string"@)
            &&& !list_fits(members, key) ==> schema::text_list(tree, key) == Err::<
                Seq<Seq<char>>,
                _,
            >("field `"@ + key + "` is not a list of strings"@)
            &&& !table_fits(members, key) ==> schema::text_table(tree, key) == Err::<
                Map<Seq<char>, Seq<char>>,
                _,
            >("field `"@ + key + "` is not a table of strings"@)
            &&& there && !allowed.contains(key) && (forall|other: Seq<char>| #[trigger]
                members.contains_key(other) && text_map::before(other, key) ==> allowed.contains(
                    other,
                )) ==> schema::table_complaint(tree, name, allowed) == Some(
                "unknown field `"@ + key + "`"@,
            )
        }),
{
    let tree = JsonTree::Object(members);
    lemma_list(members, key);
    lemma_table(members, key);
    lemma_misfits(key);
    if members.contains_key(key) && !allowed.contains(key) && (forall|other: Seq<char>| #[trigger]
        members.contains_key(other) && text_map::before(other, key) ==> allowed.contains(other)) {
        let strange = |key: Seq<char>| schema::stranger(tree, allowed, key);
        assert(schema::stranger(tree, allowed, key));
        assert(text_map::leads(strange, key));
        text_map::lemma_least(strange, key);
    }
}

/// Complaints about a misfit are one text.
proof fn lemma_misfits(key: Seq<char>)
    ensures
        schema::misfit(key, "a string"@) == "field `"@ + key + "` is not a string"@,
        schema::misfit(key, "a list of strings"@) == "field `"@ + key
            + "` is not a list of strings"@,
        schema::misfit(key, "a table of strings"@) == "field `"@ + key
            + "` is not a table of strings"@,
{
    reveal_strlit("` is not ");
    reveal_strlit("a string");
    reveal_strlit("` is not a string");
    reveal_strlit("a list of strings");
    reveal_strlit("` is not a list of strings");
    reveal_strlit("a table of strings");
    reveal_strlit("` is not a table of strings");
    assert("` is not "@ + "a string"@ =~= "` is not a string"@);
    assert("` is not "@ + "a list of strings"@ =~= "` is not a list of strings"@);
    assert("` is not "@ + "a table of strings"@ =~= "` is not a table of strings"@);
    assert(schema::misfit(key, "a string"@) =~= "field `"@ + key + ("` is not "@ + "a string"@));
    assert(schema::misfit(key, "a list of strings"@) =~= "field `"@ + key + ("` is not "@
        + "a list of strings"@));
    assert(schema::misfit(key, "a table of strings"@) =~= "field `"@ + key + ("` is not "@
        + "a table of strings"@));
}

/// A stdio table is read field by field: the program, the directory, the arguments and the
/// inherited names are those under their keys, the lists item by item and in order.
pub proof fn law_stdio_tables_are_read_field_by_field(members: Map<Seq<char>, JsonTree>)
    requires
        text_is(members, "transport"@, "stdio"@),
    ensures
        match schema::read_declaration(JsonTree::Object(members)) {
            Ok(DeclarationView::Stdio { program, args, cwd, inherit_env }) => {
                &&& text_is(members, "program"@, program)
                &&& texts_are(members, "args"@, args)
                &&& text_is(members, "cwd"@, cwd)
                &&& texts_are(members, "inherit-env"@, inherit_env)
            },
            Ok(_) => false,
            Err(_) => true,
        },
        schema::read_declaration(JsonTree::Object(members)) is Ok <==> {
            &&& only(members, seq!["transport"@, "program"@, "args"@, "cwd"@, "inherit-env"@])
            &&& members.contains_key("program"@) && members["program"@] is Text
            &&& list_fits(members, "args"@)
            &&& members.contains_key("cwd"@) && members["cwd"@] is Text
            &&& list_fits(members, "inherit-env"@)
        },
{
    lemma_transports_differ();
    lemma_only(
        members,
        "connection"@,
        seq!["transport"@, "program"@, "args"@, "cwd"@, "inherit-env"@],
    );
    lemma_list(members, "args"@);
    lemma_list(members, "inherit-env"@);
}

/// The two transports have different names.
proof fn lemma_transports_differ()
    ensures
        "stdio"@ != "http"@,
{
    reveal_strlit("stdio");
    reveal_strlit("http");
    assert("stdio"@.len() != "http"@.len());
}

/// An HTTP table is read field by field: the URL and the headers are those under their keys,
/// and the policy is what its own table declares, or none where there is no table.
pub proof fn law_http_tables_are_read_field_by_field(members: Map<Seq<char>, JsonTree>)
    requires
        text_is(members, "transport"@, "http"@),
    ensures
        match schema::read_declaration(JsonTree::Object(members)) {
            Ok(DeclarationView::Http { url, headers, auth }) => {
                &&& text_is(members, "url"@, url)
                &&& table_is(members, "headers"@, headers)
                &&& !members.contains_key("auth"@) ==> auth is Absent
                &&& members.contains_key("auth"@) ==> schema::read_auth(members["auth"@]) == Ok::<
                    _,
                    Seq<char>,
                >(auth)
            },
            Ok(_) => false,
            Err(_) => true,
        },
        schema::read_declaration(JsonTree::Object(members)) is Ok <==> {
            &&& only(members, seq!["transport"@, "url"@, "headers"@, "auth"@])
            &&& members.contains_key("url"@) && members["url"@] is Text
            &&& table_fits(members, "headers"@)
            &&& members.contains_key("auth"@) ==> schema::read_auth(members["auth"@]) is Ok
        },
{
    lemma_transports_differ();
    lemma_only(members, "connection"@, seq!["transport"@, "url"@, "headers"@, "auth"@]);
    lemma_table(members, "headers"@);
}

/// A connection is declared by a table whose transport is one of the two, and by nothing
/// else.
pub proof fn law_declarations_name_their_transport(tree: JsonTree)
    ensures
        schema::read_declaration(tree) is Ok ==> tree is Object && (text_is(
            tree->Object_0,
            "transport"@,
            "http"@,
        ) || text_is(tree->Object_0, "transport"@, "stdio"@)),
{
}

/// A source is read field by field, and its table holds no key but those of its kind.
pub proof fn law_sources_are_read_field_by_field(
    members: Map<Seq<char>, JsonTree>,
    name: Seq<char>,
    tagged: bool,
)
    ensures
        match schema::read_source(JsonTree::Object(members), name, tagged) {
            Ok(SourceView::Environment { environment }) => {
                &&& text_is(members, "source"@, "environment"@)
                &&& text_is(members, "environment"@, environment)
            },
            Ok(SourceView::JsonFile { path, pointer }) => {
                &&& text_is(members, "source"@, "json-file"@)
                &&& text_is(members, "path"@, path)
                &&& text_is(members, "pointer"@, pointer)
            },
            Err(_) => true,
        },
        text_is(members, "source"@, "environment"@) ==> (schema::read_source(
            JsonTree::Object(members),
            name,
            tagged,
        ) is Ok <==> only(
            members,
            if tagged {
                seq!["kind"@, "source"@, "environment"@]
            } else {
                seq!["source"@, "environment"@]
            },
        ) && members.contains_key("environment"@) && members["environment"@] is Text),
        text_is(members, "source"@, "json-file"@) ==> (schema::read_source(
            JsonTree::Object(members),
            name,
            tagged,
        ) is Ok <==> only(
            members,
            if tagged {
                seq!["kind"@, "source"@, "path"@, "pointer"@]
            } else {
                seq!["source"@, "path"@, "pointer"@]
            },
        ) && members.contains_key("path"@) && members["path"@] is Text && members.contains_key(
            "pointer"@,
        ) && members["pointer"@] is Text),
{
    reveal_strlit("environment");
    reveal_strlit("json-file");
    assert("environment"@.len() != "json-file"@.len());
    lemma_only(members, name, schema::environment_fields(tagged));
    lemma_only(members, name, schema::file_fields(tagged));
}

/// The keys of an OAuth policy.
pub open spec fn policy_keys() -> Seq<Seq<char>> {
    seq![
        "kind"@,
        "resource-url"@,
        "redirect-uri"@,
        "client-name"@,
        "client-id"@,
        "client-metadata-url"@,
        "scopes"@,
        "application-type"@,
        "client_secret"@,
    ]
}

/// The kinds of policy have different names.
proof fn lemma_kinds_differ()
    ensures
        "none"@ != "bearer"@,
        "none"@ != "oauth"@,
        "bearer"@ != "oauth"@,
{
    reveal_strlit("none");
    reveal_strlit("bearer");
    reveal_strlit("oauth");
    assert("none"@.len() != "bearer"@.len());
    assert("none"@.len() != "oauth"@.len());
    assert("bearer"@.len() != "oauth"@.len());
}

/// An OAuth policy is read field by field: each setting is the one under its key, the scopes
/// item by item, with the two defaults, and the client secret is what its own table declares.
pub proof fn law_oauth_tables_are_read_field_by_field(members: Map<Seq<char>, JsonTree>)
    requires
        text_is(members, "kind"@, "oauth"@),
    ensures
        match schema::read_auth(JsonTree::Object(members)) {
            Ok(AuthView::OAuth { config, client_secret }) => {
                &&& text_is(members, "resource-url"@, config.resource_url)
                &&& text_is(members, "redirect-uri"@, config.redirect_uri)
                &&& text_defaults(
                    members,
                    "client-name"@,
                    "b10x MCP client"@,
                    config.client_name,
                )
                &&& text_may_be(members, "client-id"@, config.client_id)
                &&& text_may_be(members, "client-metadata-url"@, config.client_metadata_url)
                &&& texts_are(members, "scopes"@, config.scopes)
                &&& text_defaults(members, "application-type"@, "native"@, config.application_type)
                &&& !members.contains_key("client_secret"@) ==> client_secret is None
                &&& members.contains_key("client_secret"@) ==> client_secret is Some
                    && schema::read_source(
                    members["client_secret"@],
                    "client_secret"@,
                    false,
                ) == Ok::<_, Seq<char>>(client_secret->0)
            },
            Ok(_) => false,
            Err(_) => true,
        },
        schema::read_auth(JsonTree::Object(members)) is Ok <==> {
            &&& only(members, policy_keys())
            &&& members.contains_key("resource-url"@) && members["resource-url"@] is Text
            &&& members.contains_key("redirect-uri"@) && members["redirect-uri"@] is Text
            &&& text_fits(members, "client-name"@)
            &&& text_fits(members, "client-id"@)
            &&& text_fits(members, "client-metadata-url"@)
            &&& list_fits(members, "scopes"@)
            &&& text_fits(members, "application-type"@)
            &&& members.contains_key("client_secret"@) ==> schema::read_source(
                members["client_secret"@],
                "client_secret"@,
                false,
            ) is Ok
        },
{
    lemma_kinds_differ();
    lemma_only(members, "auth"@, policy_keys());
    lemma_list(members, "scopes"@);
}

/// A bearer policy is what its source declares, and a policy of no authentication declares
/// nothing more.
pub proof fn law_other_policies_are_what_they_declare(members: Map<Seq<char>, JsonTree>)
    ensures
        text_is(members, "kind"@, "bearer"@) ==> match schema::read_auth(
            JsonTree::Object(members),
        ) {
            Ok(AuthView::Bearer { source }) => schema::read_source(
                JsonTree::Object(members),
                "auth"@,
                true,
            ) == Ok::<_, Seq<char>>(source),
            Ok(_) => false,
            Err(_) => schema::read_source(JsonTree::Object(members), "auth"@, true) is Err,
        },
        text_is(members, "kind"@, "none"@) ==> match schema::read_auth(JsonTree::Object(members)) {
            Ok(auth) => auth is Absent && only(members, seq!["kind"@]),
            Err(_) => !only(members, seq!["kind"@]),
        },
        schema::read_auth(JsonTree::Object(members)) is Ok ==> text_is(
            members,
            "kind"@,
            "none"@,
        ) || text_is(members, "kind"@, "bearer"@) || text_is(members, "kind"@, "oauth"@),
{
    lemma_kinds_differ();
    lemma_only(members, "auth"@, seq!["kind"@]);
}

/// Nothing but a table is a policy, a source or a declaration.
pub proof fn law_only_tables_declare(tree: JsonTree, name: Seq<char>, tagged: bool)
    requires
        tree !is Object,
    ensures
        schema::read_auth(tree) is Err,
        schema::read_source(tree, name, tagged) is Err,
        schema::read_declaration(tree) is Err,
        schema::read_document(tree) is Err,
{
}

/// A document is read exactly where it holds nothing but a table of connections, or not even
/// that, and each of them is a declaration. It declares each connection under its own name,
/// and no other.
pub proof fn law_documents_declare_each_connection(members: Map<Seq<char>, JsonTree>)
    ensures
        schema::read_document(JsonTree::Object(members)) is Ok <==> {
            &&& only(members, seq!["connections"@])
            &&& members.contains_key("connections"@) ==> members["connections"@] is Object
                && forall|name: Seq<char>| #[trigger]
                members["connections"@]->Object_0.contains_key(name) ==> schema::read_declaration(
                    members["connections"@]->Object_0[name],
                ) is Ok
        },
        schema::read_document(JsonTree::Object(members)) matches Ok(declared) ==> {
            if members.contains_key("connections"@) {
                let tables = members["connections"@]->Object_0;
                &&& forall|name: Seq<char>| #[trigger]
                    declared.contains_key(name) <==> tables.contains_key(name)
                &&& forall|name: Seq<char>| #[trigger]
                    declared.contains_key(name) ==> schema::read_declaration(tables[name]) == Ok::<
                        _,
                        Seq<char>,
                    >(declared[name])
            } else {
                forall|name: Seq<char>| !#[trigger] declared.contains_key(name)
            }
        },
{
    lemma_only(members, "registry"@, seq!["connections"@]);
    if members.contains_key("connections"@) && members["connections"@] is Object {
        let tables = members["connections"@]->Object_0;
        if forall|name: Seq<char>| !#[trigger] schema::undeclared(tables, name) {
            assert forall|name: Seq<char>| #[trigger]
                tables.contains_key(name) implies schema::read_declaration(tables[name]) is Ok by {
                assert(!schema::undeclared(tables, name));
            }
        } else {
            let name = choose|name: Seq<char>| #[trigger] schema::undeclared(tables, name);
            assert(tables.contains_key(name));
        }
    }
}

/// A registry that was parsed is what its document declares, and nothing speaks against any
/// connection in it; a document that declares such a registry is parsed.
pub proof fn law_parsed_registries_are_what_was_declared(tree: JsonTree)
    requires
        schema::read_document(tree) is Ok ==> schema::read_document(tree)->Ok_0.dom().finite(),
    ensures
        schema::parsed_registry(Ok(tree)) is Ok <==> schema::read_document(tree) is Ok && forall|
            name: Seq<char>,
        | #[trigger]
            schema::read_document(tree)->Ok_0.contains_key(name) ==> registry::connection_refusal(
                name,
                schema::read_document(tree)->Ok_0[name],
            ) is None,
        schema::parsed_registry(Ok(tree)) matches Ok(parsed) ==> schema::read_document(tree)
            == Ok::<_, Seq<char>>(parsed),
{
    if let Ok(declared) = schema::read_document(tree) {
        if forall|name: Seq<char>| !#[trigger] registry::refused(declared, name) {
            assert forall|name: Seq<char>| #[trigger]
                declared.contains_key(name) implies registry::connection_refusal(
                name,
                declared[name],
            ) is None by {
                assert(!registry::refused(declared, name));
            }
        } else {
            let name = choose|name: Seq<char>| #[trigger] registry::refused(declared, name);
            assert(declared.contains_key(name));
            lemma_refused(declared, name);
        }
    }
}

/// A registry with a refused connection is refused.
proof fn lemma_refused(declared: Map<Seq<char>, DeclarationView>, name: Seq<char>)
    requires
        registry::refused(declared, name),
        declared.dom().finite(),
    ensures
        registry::registry_refusal(declared) is Some,
{
    let failing = |name: Seq<char>| registry::refused(declared, name);
    let names = declared.dom().filter(failing);
    assert(names.contains(name));
    lemma_leader(names);
    let first = choose|first: Seq<char>|
        names.contains(first) && forall|other: Seq<char>| #[trigger]
            names.contains(other) ==> !text_map::before(other, first);
    assert forall|other: Seq<char>| #[trigger] failing(other) implies !text_map::before(
        other,
        first,
    ) by {
        assert(names.contains(other));
    }
    assert(text_map::leads(failing, first));
    text_map::lemma_least(failing, first);
}

/// Among finitely many names one stands before all others.
proof fn lemma_leader(names: Set<Seq<char>>)
    requires
        names.finite(),
        names.len() > 0,
    ensures
        exists|first: Seq<char>|
            #[trigger] names.contains(first) && forall|other: Seq<char>| #[trigger]
                names.contains(other) ==> !text_map::before(other, first),
    decreases names.len(),
{
    let some = names.choose();
    let rest = names.remove(some);
    if rest.len() == 0 {
        assert forall|other: Seq<char>| #[trigger]
            names.contains(other) implies !text_map::before(other, some) by {
            if other != some {
                assert(rest.contains(other));
            }
            text_map::lemma_irreflexive(some);
        }
        assert(names.contains(some));
    } else {
        lemma_leader(rest);
        let leader = choose|first: Seq<char>|
            #[trigger] rest.contains(first) && forall|other: Seq<char>| #[trigger]
                rest.contains(other) ==> !text_map::before(other, first);
        let first = if text_map::before(some, leader) {
            some
        } else {
            leader
        };
        assert forall|other: Seq<char>| #[trigger]
            names.contains(other) implies !text_map::before(other, first) by {
            text_map::lemma_irreflexive(some);
            if other != some {
                assert(rest.contains(other));
                if first == some && text_map::before(other, some) {
                    text_map::lemma_transitive(other, some, leader);
                }
            }
        }
        assert(names.contains(first));
    }
}

/// Of several connections that are refused, the first by name is what a registry is refused
/// for, and likewise of several tables that declare nothing.
pub proof fn law_first_names_are_refused_first(
    declared: Map<Seq<char>, DeclarationView>,
    tables: Map<Seq<char>, JsonTree>,
    name: Seq<char>,
)
    ensures
        declared.contains_key(name) && registry::connection_refusal(name, declared[name]) is Some
            && (forall|other: Seq<char>| #[trigger]
            declared.contains_key(other) && text_map::before(other, name)
                ==> registry::connection_refusal(other, declared[other]) is None)
            ==> registry::registry_refusal(declared) == registry::connection_refusal(
            name,
            declared[name],
        ),
        tables.contains_key(name) && schema::read_declaration(tables[name]) is Err && (forall|
            other: Seq<char>,
        | #[trigger]
            tables.contains_key(other) && text_map::before(other, name)
                ==> schema::read_declaration(tables[other]) is Ok) ==> schema::read_connections(
            tables,
        ) == Err::<Map<Seq<char>, DeclarationView>, _>(
            "connection `"@ + name + "`: "@ + schema::read_declaration(tables[name])->Err_0,
        ),
{
    let failing = |name: Seq<char>| registry::refused(declared, name);
    let broken = |name: Seq<char>| schema::undeclared(tables, name);
    if declared.contains_key(name) && registry::connection_refusal(name, declared[name]) is Some
        && (forall|other: Seq<char>| #[trigger]
        declared.contains_key(other) && text_map::before(other, name)
            ==> registry::connection_refusal(other, declared[other]) is None) {
        assert(registry::refused(declared, name));
        assert(text_map::leads(failing, name));
        text_map::lemma_least(failing, name);
    }
    if tables.contains_key(name) && schema::read_declaration(tables[name]) is Err && (forall|
        other: Seq<char>,
    | #[trigger]
        tables.contains_key(other) && text_map::before(other, name) ==> schema::read_declaration(
            tables[other],
        ) is Ok) {
        assert(schema::undeclared(tables, name));
        assert(text_map::leads(broken, name));
        text_map::lemma_least(broken, name);
    }
}

/// A document that is no TOML is refused for the reason that the parser gives.
pub proof fn law_unparsed_documents_are_refused(reason: Seq<char>)
    ensures
        schema::parsed_registry(Err(reason)) == Err::<Map<Seq<char>, DeclarationView>, _>(
            ErrorView::Configuration("invalid registry: "@ + reason),
        ),
{
}

/// A path from the root.
pub open spec fn rooted(path: Seq<char>) -> bool {
    path.len() > 0 && path[0] == '/'
}

/// A name of uppercase letters, digits and underscores.
pub open spec fn plain_variable(name: Seq<char>) -> bool {
    name.len() > 0 && forall|i: int|
        0 <= i < name.len() ==> ('A' <= #[trigger] name[i] <= 'Z' || '0' <= name[i] <= '9'
            || name[i] == '_')
}

/// Names of variables are of uppercase letters, digits and underscores.
pub proof fn law_variable_names(name: Seq<char>)
    ensures
        bearer::variable_name(name) <==> plain_variable(name),
{
    if bearer::variable_name(name) {
        assert forall|i: int| 0 <= i < name.len() implies ('A' <= #[trigger] name[i] <= 'Z' || '0'
            <= name[i] <= '9' || name[i] == '_') by {
            assert(bearer::variable_character(name[i]));
        }
    }
}

/// A source is sound exactly where its variable is one, or where its file is from the root and
/// its pointer is empty or starts at the root of the document.
pub proof fn law_sound_sources(source: SourceView)
    ensures
        bearer::source_refusal(source) is None <==> match source {
            SourceView::Environment { environment } => plain_variable(environment),
            SourceView::JsonFile { path, pointer } => rooted(path) && (pointer.len() == 0
                || pointer[0] == '/'),
        },
{
    if let SourceView::Environment { environment } = source {
        law_variable_names(environment);
    }
}

/// A declared connection is sound exactly where its name is one and, for a server of its own,
/// where the program and the directory are from the root and every inherited name is one.
pub proof fn law_sound_stdio_declarations(
    name: Seq<char>,
    program: Seq<char>,
    args: Seq<Seq<char>>,
    cwd: Seq<char>,
    inherit_env: Seq<Seq<char>>,
)
    ensures
        registry::connection_refusal(
            name,
            DeclarationView::Stdio { program, args, cwd, inherit_env },
        ) is None <==> {
            &&& identity::connection_name(name)
            &&& rooted(program)
            &&& rooted(cwd)
            &&& forall|i: int|
                0 <= i < inherit_env.len() ==> plain_variable(#[trigger] inherit_env[i])
        },
{
    let refusals = Seq::new(
        inherit_env.len(),
        |i: int| bearer::variable_refusal(inherit_env[i]),
    );
    refusal::lemma_first_none(refusals);
    assert forall|i: int| 0 <= i < inherit_env.len() implies (refusals[i] is None
        <==> plain_variable(#[trigger] inherit_env[i])) by {
        law_variable_names(inherit_env[i]);
    }
    if refusal::first(refusals) is None {
        assert forall|i: int| 0 <= i < inherit_env.len() implies plain_variable(
            #[trigger] inherit_env[i],
        ) by {
            assert(refusals[i] is None);
        }
    } else {
        let i = choose|i: int| 0 <= i < refusals.len() && (#[trigger] refusals[i]) is Some;
        assert(!plain_variable(inherit_env[i]));
    }
}

/// A declared server of its own is refused for the first that is wrong with it: its name, its
/// program, its directory, then the first inherited name that is none.
pub proof fn law_refused_stdio_declarations_tell_why(
    name: Seq<char>,
    program: Seq<char>,
    args: Seq<Seq<char>>,
    cwd: Seq<char>,
    inherit_env: Seq<Seq<char>>,
    i: int,
)
    ensures
        ({
            let refused = registry::connection_refusal(
                name,
                DeclarationView::Stdio { program, args, cwd, inherit_env },
            );
            if !identity::connection_name(name) {
                refused == Some(
                    ErrorView::Configuration("connection id must match [a-z0-9_]{1,64}"@),
                )
            } else if !rooted(program) {
                refused == Some(
                    ErrorView::Configuration("stdio program"@ + " path must be absolute"@),
                )
            } else if !rooted(cwd) {
                refused == Some(ErrorView::Configuration("stdio cwd"@ + " path must be absolute"@))
            } else {
                0 <= i < inherit_env.len() && !plain_variable(inherit_env[i]) && (forall|j: int|
                    0 <= j < i ==> plain_variable(#[trigger] inherit_env[j])) ==> refused == Some(
                    ErrorView::Configuration(
                        "invalid environment name `"@ + inherit_env[i] + "`"@,
                    ),
                )
            }
        }),
{
    let refusals = Seq::new(
        inherit_env.len(),
        |i: int| bearer::variable_refusal(inherit_env[i]),
    );
    if 0 <= i < inherit_env.len() && !plain_variable(inherit_env[i]) && (forall|j: int|
        0 <= j < i ==> plain_variable(#[trigger] inherit_env[j])) {
        law_variable_names(inherit_env[i]);
        assert forall|j: int| 0 <= j < i implies (#[trigger] refusals[j]) is None by {
            law_variable_names(inherit_env[j]);
            assert(plain_variable(inherit_env[j]));
        }
        refusal::lemma_first_at(refusals, i);
    }
}

/// A source that is refused is refused by what is wrong with it, and so is a policy by the
/// source that it reads or by the addresses that it lacks.
pub proof fn law_refused_policies_tell_why(name: Seq<char>, source: SourceView, auth: AuthView)
    ensures
        match source {
            SourceView::Environment { environment } => !plain_variable(environment)
                ==> bearer::source_refusal(source) == Some(
                ErrorView::Configuration("invalid environment name `"@ + environment + "`"@),
            ),
            SourceView::JsonFile { path, pointer } => if !rooted(path) {
                bearer::source_refusal(source) == Some(
                    ErrorView::Configuration("credential JSON file"@ + " path must be absolute"@),
                ) && bearer::credential_file_refusal(path) == bearer::source_refusal(source)
            } else {
                bearer::credential_file_refusal(path) is None && (pointer.len() > 0 && pointer[0]
                    != '/' ==> bearer::source_refusal(source) == Some(
                    ErrorView::Configuration(
                        "credential JSON pointer must be empty or start with `/`"@,
                    ),
                ))
            },
        },
        match auth {
            AuthView::Absent => registry::auth_refusal(name, auth) is None,
            AuthView::Bearer { source } => registry::auth_refusal(name, auth)
                == bearer::source_refusal(source),
            AuthView::OAuth { config, client_secret } => if config.resource_url.len() == 0
                || config.redirect_uri.len() == 0 {
                registry::auth_refusal(name, auth) == Some(
                    ErrorView::Configuration(
                        "OAuth connection `"@ + name + "` requires resource-url and redirect-uri"@,
                    ),
                )
            } else {
                client_secret matches Some(source) ==> registry::auth_refusal(name, auth)
                    == bearer::source_refusal(source)
            },
        },
{
    if let SourceView::Environment { environment } = source {
        law_variable_names(environment);
    }
}

/// A declared connection is sound exactly where its name is one and, for a server elsewhere,
/// where the sources of its policy are and an OAuth policy names its resource and redirect.
pub proof fn law_sound_http_declarations(
    name: Seq<char>,
    url: Seq<char>,
    headers: Map<Seq<char>, Seq<char>>,
    auth: AuthView,
)
    ensures
        registry::connection_refusal(name, DeclarationView::Http { url, headers, auth }) is None
            <==> identity::connection_name(name) && match auth {
            AuthView::Absent => true,
            AuthView::Bearer { source } => bearer::source_refusal(source) is None,
            AuthView::OAuth { config, client_secret } => {
                &&& config.resource_url.len() > 0
                &&& config.redirect_uri.len() > 0
                &&& client_secret is Some ==> bearer::source_refusal(client_secret->0) is None
            },
        },
{
}

/// The contents of a declared connection are those of its fields, each of them.
pub proof fn law_declared_contents_are_their_fields(
    source: BearerSource,
    config: OAuthConfig,
    auth: HttpAuth,
    connection: ConnectionConfig,
    registry: Registry,
    key: Seq<char>,
    i: int,
)
    ensures
        match source {
            BearerSource::Environment { environment } => source@ == (SourceView::Environment {
                environment: environment@,
            }),
            BearerSource::JsonFile { path, pointer } => source@ == (SourceView::JsonFile {
                path: path@,
                pointer: pointer@,
            }),
        },
        config@.resource_url == config.resource_url@,
        config@.redirect_uri == config.redirect_uri@,
        config@.client_name == config.client_name@,
        config@.client_id is Some <==> config.client_id is Some,
        config.client_id is Some ==> config@.client_id->0 == config.client_id->0@,
        config@.client_metadata_url is Some <==> config.client_metadata_url is Some,
        config.client_metadata_url is Some ==> config@.client_metadata_url->0
            == config.client_metadata_url->0@,
        config@.scopes.len() == config.scopes@.len(),
        0 <= i < config.scopes@.len() ==> config@.scopes[i] == config.scopes@[i]@,
        config@.application_type == config.application_type@,
        match auth {
            HttpAuth::Absent => auth@ is Absent,
            HttpAuth::Bearer { source } => auth@ == (AuthView::Bearer { source: source@ }),
            HttpAuth::OAuth { config, client_secret } => match auth@ {
                AuthView::OAuth { config: held, client_secret: secret } => held == config@ && (
                secret is Some <==> client_secret is Some) && (client_secret is Some ==> secret->0
                    == client_secret->0@),
                _ => false,
            },
        },
        match connection {
            ConnectionConfig::Http { transport_config, auth } => match connection@ {
                DeclarationView::Http { url, headers, auth: policy } => {
                    &&& url == transport_config.url@
                    &&& headers.contains_key(key) <==> transport_config.headers@.contains_key(key)
                    &&& headers.contains_key(key) ==> headers[key]
                        == transport_config.headers@[key]@
                    &&& policy == auth@
                },
                _ => false,
            },
            ConnectionConfig::Stdio { transport_config } => match connection@ {
                DeclarationView::Stdio { program, args, cwd, inherit_env } => {
                    &&& program == transport_config.program@
                    &&& args.len() == transport_config.args@.len()
                    &&& 0 <= i < args.len() ==> args[i] == transport_config.args@[i]@
                    &&& cwd == transport_config.cwd@
                    &&& inherit_env.len() == transport_config.inherit_env@.len()
                    &&& 0 <= i < inherit_env.len() ==> inherit_env[i]
                        == transport_config.inherit_env@[i]@
                },
                _ => false,
            },
        },
        registry@.contains_key(key) <==> registry.connections@.contains_key(key),
        registry@.contains_key(key) ==> registry@[key] == registry.connections@[key]@,
{
}

} // verus!
