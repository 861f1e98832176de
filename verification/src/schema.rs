//! The strict schema of a registry document.
//!
//! A document is a tree of tables. A table holds the fields that are named here and no
//! other, so a credential value has no place to stand in.

use vstd::prelude::*;
use vstd::string::*;

use crate::bearer::{BearerSource, SourceView};
use crate::error;
use crate::error::{joined, pair, ClientError, ErrorView};
use crate::headers;
use crate::json;
use crate::json::{Json, JsonTree};
use crate::oauth;
use crate::oauth::{default_application_type, default_client_name, OAuthConfig, OAuthConfigView};
use crate::outside;
use crate::outside::value_from_toml;
use crate::registry;
use crate::registry::{AuthView, ConnectionConfig, DeclarationView, HttpAuth, Registry};
use crate::text::same;
use crate::text_map;
use crate::text_map::{stands_before, TextMap};
use crate::transport::{HttpTransportConfig, StdioTransportConfig};

verus! {

/// The complaint about a field that is not there.
pub open spec fn missing(key: Seq<char>) -> Seq<char> {
    "missing field `"@ + key + "`"@
}

/// The complaint about a field that no schema names.
pub open spec fn unknown(key: Seq<char>) -> Seq<char> {
    "unknown field `"@ + key + "`"@
}

/// The complaint about a field of another kind.
pub open spec fn misfit(key: Seq<char>, kind: Seq<char>) -> Seq<char> {
    "field `"@ + key + "` is not "@ + kind
}

/// The members of a table.
pub open spec fn members_of(tree: JsonTree) -> Map<Seq<char>, JsonTree> {
    match tree {
        JsonTree::Object(members) => members,
        _ => Map::empty(),
    }
}

/// Whether a field stands in a table and is none of those allowed.
pub open spec fn stranger(tree: JsonTree, allowed: Seq<Seq<char>>, key: Seq<char>) -> bool {
    members_of(tree).contains_key(key) && !allowed.contains(key)
}

/// Whether a table holds only fields that are allowed.
pub open spec fn confined(tree: JsonTree, allowed: Seq<Seq<char>>) -> bool {
    forall|key: Seq<char>| !#[trigger] stranger(tree, allowed, key)
}

/// The complaint about a table, if it is none or holds a field that is not allowed: the
/// first of those.
pub open spec fn table_complaint(
    tree: JsonTree,
    name: Seq<char>,
    allowed: Seq<Seq<char>>,
) -> Option<Seq<char>> {
    if !(tree is Object) {
        Some(misfit(name, "a table"@))
    } else if confined(tree, allowed) {
        None
    } else {
        Some(unknown(text_map::least(|key: Seq<char>| stranger(tree, allowed, key))))
    }
}

/// A text that has to be there.
pub open spec fn required_text(tree: JsonTree, key: Seq<char>) -> Result<Seq<char>, Seq<char>> {
    match tree.member(key) {
        None => Err(missing(key)),
        Some(JsonTree::Text(text)) => Ok(text),
        Some(_) => Err(misfit(key, "a string"@)),
    }
}

/// A text that may be there.
pub open spec fn possible_text(tree: JsonTree, key: Seq<char>) -> Result<
    Option<Seq<char>>,
    Seq<char>,
> {
    match tree.member(key) {
        None => Ok(None),
        Some(JsonTree::Text(text)) => Ok(Some(text)),
        Some(_) => Err(misfit(key, "a string"@)),
    }
}

/// A text that may be there, or what stands for it.
pub open spec fn text_or(tree: JsonTree, key: Seq<char>, default: Seq<char>) -> Result<
    Seq<char>,
    Seq<char>,
> {
    match possible_text(tree, key) {
        Err(complaint) => Err(complaint),
        Ok(None) => Ok(default),
        Ok(Some(text)) => Ok(text),
    }
}

/// The texts of array items, where all of them are texts.
pub open spec fn item_texts(items: Seq<JsonTree>) -> Option<Seq<Seq<char>>>
    decreases items.len(),
{
    if items.len() == 0 {
        Some(Seq::empty())
    } else {
        match (item_texts(items.drop_last()), items.last()) {
            (Some(front), JsonTree::Text(text)) => Some(front.push(text)),
            _ => None,
        }
    }
}

/// A list of texts that may be there, and is empty where it is not.
pub open spec fn text_list(tree: JsonTree, key: Seq<char>) -> Result<Seq<Seq<char>>, Seq<char>> {
    match tree.member(key) {
        None => Ok(Seq::empty()),
        Some(JsonTree::Array(items)) => match item_texts(items) {
            Some(texts) => Ok(texts),
            None => Err(misfit(key, "a list of strings"@)),
        },
        Some(_) => Err(misfit(key, "a list of strings"@)),
    }
}

/// A table of texts that may be there, and is empty where it is not.
pub open spec fn text_table(tree: JsonTree, key: Seq<char>) -> Result<
    Map<Seq<char>, Seq<char>>,
    Seq<char>,
> {
    match tree.member(key) {
        None => Ok(Map::empty()),
        Some(JsonTree::Object(members)) => if forall|name: Seq<char>|
            members.contains_key(name) ==> (#[trigger] members[name]) is Text {
            Ok(members.map_values(|value: JsonTree| value->Text_0))
        } else {
            Err(misfit(key, "a table of strings"@))
        },
        Some(_) => Err(misfit(key, "a table of strings"@)),
    }
}

/// The fields of a table, seen through their characters.
pub open spec fn fields(names: Seq<&str>) -> Seq<Seq<char>> {
    Seq::new(names.len(), |i: int| names[i]@)
}

/// Decides whether a name is one of those listed.
fn is_listed(name: &str, names: &[&str]) -> (r: bool)
    ensures
        r == fields(names@).contains(name@),
{
    let mut i: usize = 0;
    while i < names.len()
        invariant
            i <= names@.len(),
            forall|j: int| 0 <= j < i ==> (#[trigger] names@[j])@ != name@,
        decreases names@.len() - i,
    {
        if same(names[i], name) {
            assert(fields(names@)[i as int] == name@);
            return true;
        }
        i = i + 1;
    }
    assert forall|j: int| 0 <= j < fields(names@).len() implies fields(names@)[j] != name@ by {
        assert(names@[j]@ != name@);
    }
    false
}

/// Checks that a value is a table that holds only fields that are allowed.
fn check_table(table: &Json, name: &str, allowed: &[&str]) -> (r: Result<(), String>)
    ensures
        match r {
            Ok(()) => table_complaint(table@, name@, fields(allowed@)) is None,
            Err(complaint) => table_complaint(table@, name@, fields(allowed@)) == Some(complaint@),
        },
{
    let members = match table {
        Json::Object(members) => members,
        _ => return Err(misfit_text(name, "a table")),
    };
    let ghost tree = table@;
    let ghost names = fields(allowed@);
    let ghost strange = |key: Seq<char>| stranger(tree, names, key);
    let mut found: Option<usize> = None;
    let mut i: usize = 0;
    while i < members.len()
        invariant
            i <= members@.len(),
            tree == JsonTree::Object(json::member_trees(members@)),
            names == fields(allowed@),
            match found {
                None => forall|j: int|
                    0 <= j < i ==> names.contains((#[trigger] members@[j]).0@),
                Some(k) => {
                    &&& k < i
                    &&& !names.contains(members@[k as int].0@)
                    &&& forall|j: int|
                        0 <= j < i && !names.contains((#[trigger] members@[j]).0@)
                            ==> !text_map::before(members@[j].0@, members@[k as int].0@)
                },
            },
        decreases members@.len() - i,
    {
        let key = members[i].0.as_str();
        if !is_listed(key, allowed) {
            match found {
                None => {
                    proof {
                        text_map::lemma_irreflexive(members@[i as int].0@);
                    }
                    found = Some(i);
                },
                Some(k) => {
                    if stands_before(key, members[k].0.as_str()) {
                        proof {
                            text_map::lemma_irreflexive(members@[i as int].0@);
                            assert forall|j: int|
                                0 <= j <= i && !names.contains(
                                    (#[trigger] members@[j]).0@,
                                ) implies !text_map::before(
                                members@[j].0@,
                                members@[i as int].0@,
                            ) by {
                                if text_map::before(members@[j].0@, members@[i as int].0@) {
                                    text_map::lemma_transitive(
                                        members@[j].0@,
                                        members@[i as int].0@,
                                        members@[k as int].0@,
                                    );
                                }
                            }
                        }
                        found = Some(i);
                    }
                },
            }
        }
        i = i + 1;
    }
    match found {
        None => {
            assert forall|key: Seq<char>| !#[trigger] stranger(tree, names, key) by {
                json::lemma_member_keys(members@, key);
            }
            Ok(())
        },
        Some(k) => {
            proof {
                let first = members@[k as int].0@;
                json::lemma_member_keys(members@, first);
                assert(stranger(tree, names, first));
                assert forall|other: Seq<char>| #[trigger] strange(other) implies !text_map::before(
                    other,
                    first,
                ) by {
                    json::lemma_member_keys(members@, other);
                }
                assert(text_map::leads(strange, first));
                text_map::lemma_least(strange, first);
            }
            Err(joined("unknown field `", members[k].0.as_str(), "`"))
        },
    }
}

/// The complaint about a field of another kind.
fn misfit_text(key: &str, kind: &str) -> (r: String)
    ensures
        r@ == misfit(key@, kind@),
{
    let mut out = joined("field `", key, "` is not ");
    out.append(kind);
    out
}

/// An outcome of reading, seen through its characters.
pub open spec fn read_text(r: Result<String, String>) -> Result<Seq<char>, Seq<char>> {
    match r {
        Ok(text) => Ok(text@),
        Err(complaint) => Err(complaint@),
    }
}

/// Reads a text that may be there.
fn get_possible(table: &Json, key: &str) -> (r: Result<Option<String>, String>)
    ensures
        match r {
            Ok(text) => possible_text(table@, key@) == Ok::<_, Seq<char>>(
                error::optional_text(text),
            ),
            Err(complaint) => possible_text(table@, key@) == Err::<Option<Seq<char>>, _>(
                complaint@,
            ),
        },
{
    match table.get(key) {
        None => Ok(None),
        Some(value) => match value.as_text() {
            Some(text) => Ok(Some(text.to_owned())),
            None => Err(misfit_text(key, "a string")),
        },
    }
}

/// Reads a text that has to be there.
fn get_text(table: &Json, key: &str) -> (r: Result<String, String>)
    ensures
        read_text(r) == required_text(table@, key@),
{
    match get_possible(table, key) {
        Ok(Some(text)) => Ok(text),
        Ok(None) => Err(joined("missing field `", key, "`")),
        Err(complaint) => Err(complaint),
    }
}

/// Reads a text that may be there, or takes what stands for it.
fn get_text_or(table: &Json, key: &str, default: String) -> (r: Result<String, String>)
    ensures
        read_text(r) == text_or(table@, key@, default@),
{
    match get_possible(table, key) {
        Ok(Some(text)) => Ok(text),
        Ok(None) => Ok(default),
        Err(complaint) => Err(complaint),
    }
}

/// One item that is no text makes the whole list none.
proof fn lemma_item_texts(items: Seq<JsonTree>, n: int)
    requires
        0 <= n <= items.len(),
        item_texts(items.take(n)) is None,
    ensures
        item_texts(items) is None,
    decreases items.len() - n,
{
    if n < items.len() {
        assert(items.take(n + 1).drop_last() =~= items.take(n));
        lemma_item_texts(items, n + 1);
    } else {
        assert(items.take(n) =~= items);
    }
}

/// Reads a list of texts that may be there.
fn get_list(table: &Json, key: &str) -> (r: Result<Vec<String>, String>)
    ensures
        match r {
            Ok(texts) => text_list(table@, key@) == Ok::<_, Seq<char>>(oauth::all_texts(texts@)),
            Err(complaint) => text_list(table@, key@) == Err::<Seq<Seq<char>>, _>(complaint@),
        },
{
    let items = match table.get(key) {
        None => {
            let none: Vec<String> = Vec::new();
            assert(oauth::all_texts(none@) =~= Seq::<Seq<char>>::empty());
            return Ok(none);
        },
        Some(Json::Array(items)) => items,
        Some(_) => return Err(misfit_text(key, "a list of strings")),
    };
    let ghost whole = json::trees(items@);
    let mut texts: Vec<String> = Vec::new();
    let mut i: usize = 0;
    proof {
        json::lemma_trees(items@);
        assert(whole.take(0) =~= Seq::<JsonTree>::empty());
        assert(oauth::all_texts(texts@) =~= Seq::<Seq<char>>::empty());
    }
    while i < items.len()
        invariant
            i <= items@.len(),
            whole == json::trees(items@),
            whole.len() == items@.len(),
            forall|j: int| 0 <= j < items@.len() ==> whole[j] == #[trigger] json::tree(items@[j]),
            table@.member(key@) == Some(JsonTree::Array(whole)),
            item_texts(whole.take(i as int)) == Some(oauth::all_texts(texts@)),
        decreases items@.len() - i,
    {
        assert(whole.take(i + 1).drop_last() =~= whole.take(i as int));
        assert(whole.take(i + 1).last() == json::tree(items@[i as int]));
        match items[i].as_text() {
            Some(text) => {
                let ghost front = texts@;
                texts.push(text.to_owned());
                assert(oauth::all_texts(texts@) =~= oauth::all_texts(front).push(text@));
            },
            None => {
                proof {
                    lemma_item_texts(whole, i + 1);
                }
                return Err(misfit_text(key, "a list of strings"));
            },
        }
        i = i + 1;
    }
    assert(whole.take(i as int) =~= whole);
    Ok(texts)
}

/// Reads a table of texts that may be there.
fn get_text_table(table: &Json, key: &str) -> (r: Result<TextMap<String>, String>)
    ensures
        match r {
            Ok(map) => text_table(table@, key@) == Ok::<_, Seq<char>>(headers::texts(map@)),
            Err(complaint) => text_table(table@, key@) == Err::<Map<Seq<char>, Seq<char>>, _>(
                complaint@,
            ),
        },
{
    let mut map: TextMap<String> = TextMap::new();
    assert(headers::texts(map@) =~= Map::<Seq<char>, Seq<char>>::empty());
    let value = match table.get(key) {
        None => return Ok(map),
        Some(value) => value,
    };
    let members = match value {
        Json::Object(members) => members,
        _ => return Err(misfit_text(key, "a table of strings")),
    };
    let ghost whole = json::member_trees(members@);
    let mut i: usize = 0;
    while i < members.len()
        invariant
            i <= members@.len(),
            whole == json::member_trees(members@),
            value@ == JsonTree::Object(whole),
            table@.member(key@) == Some(JsonTree::Object(whole)),
            forall|name: Seq<char>| #[trigger]
                map@.contains_key(name) ==> whole.contains_key(name) && whole[name]
                    == JsonTree::Text(map@[name]@),
            forall|j: int|
                0 <= j < i ==> map@.contains_key((#[trigger] members@[j]).0@),
        decreases members@.len() - i,
    {
        let name = members[i].0.as_str();
        proof {
            json::lemma_member_keys(members@, name@);
            assert(whole.contains_key(name@));
        }
        match get_possible(value, name) {
            Ok(Some(text)) => map.insert(name.to_owned(), text),
            _ => {
                assert(!(whole[name@] is Text));
                return Err(misfit_text(key, "a table of strings"));
            },
        }
        i = i + 1;
    }
    proof {
        assert forall|name: Seq<char>| whole.contains_key(name) implies map@.contains_key(
            name,
        ) by {
            json::lemma_member_keys(members@, name);
        }
        let want = whole.map_values(|value: JsonTree| value->Text_0);
        assert forall|name: Seq<char>| whole.contains_key(name) implies (#[trigger] whole[name]) is Text by {
            assert(map@.contains_key(name));
        }
        assert(headers::texts(map@) =~= want);
    }
    Ok(map)
}

/// The fields of a source in an environment variable.
pub open spec fn environment_fields(tagged: bool) -> Seq<Seq<char>> {
    if tagged {
        seq!["kind"@, "source"@, "environment"@]
    } else {
        seq!["source"@, "environment"@]
    }
}

/// The fields of a source in a file.
pub open spec fn file_fields(tagged: bool) -> Seq<Seq<char>> {
    if tagged {
        seq!["kind"@, "source"@, "path"@, "pointer"@]
    } else {
        seq!["source"@, "path"@, "pointer"@]
    }
}

/// What the table `name` declares as a source; a tagged one also holds a kind.
pub open spec fn read_source(tree: JsonTree, name: Seq<char>, tagged: bool) -> Result<
    SourceView,
    Seq<char>,
> {
    if !(tree is Object) {
        Err(misfit(name, "a table"@))
    } else {
        match required_text(tree, "source"@) {
            Err(complaint) => Err(complaint),
            Ok(source) => if source == "environment"@ {
                match table_complaint(tree, name, environment_fields(tagged)) {
                    Some(complaint) => Err(complaint),
                    None => match required_text(tree, "environment"@) {
                        Err(complaint) => Err(complaint),
                        Ok(environment) => Ok(SourceView::Environment { environment }),
                    },
                }
            } else if source == "json-file"@ {
                match table_complaint(tree, name, file_fields(tagged)) {
                    Some(complaint) => Err(complaint),
                    None => match required_text(tree, "path"@) {
                        Err(complaint) => Err(complaint),
                        Ok(path) => match required_text(tree, "pointer"@) {
                            Err(complaint) => Err(complaint),
                            Ok(pointer) => Ok(SourceView::JsonFile { path, pointer }),
                        },
                    },
                }
            } else {
                Err(misfit("source"@, "a known source"@))
            },
        }
    }
}

/// Reads what the table `name` declares as a source.
fn get_source(table: &Json, name: &str, tagged: bool) -> (r: Result<BearerSource, String>)
    ensures
        match r {
            Ok(source) => read_source(table@, name@, tagged) == Ok::<_, Seq<char>>(source@),
            Err(complaint) => read_source(table@, name@, tagged) == Err::<SourceView, _>(
                complaint@,
            ),
        },
{
    if !table.is_object() {
        return Err(misfit_text(name, "a table"));
    }
    let source = get_text(table, "source")?;
    if same(source.as_str(), "environment") {
        if tagged {
            let allowed = ["kind", "source", "environment"];
            assert(fields(allowed@) =~= environment_fields(tagged));
            check_table(table, name, allowed.as_slice())?;
        } else {
            let allowed = ["source", "environment"];
            assert(fields(allowed@) =~= environment_fields(tagged));
            check_table(table, name, allowed.as_slice())?;
        }
        let environment = get_text(table, "environment")?;
        Ok(BearerSource::Environment { environment })
    } else if same(source.as_str(), "json-file") {
        if tagged {
            let allowed = ["kind", "source", "path", "pointer"];
            assert(fields(allowed@) =~= file_fields(tagged));
            check_table(table, name, allowed.as_slice())?;
        } else {
            let allowed = ["source", "path", "pointer"];
            assert(fields(allowed@) =~= file_fields(tagged));
            check_table(table, name, allowed.as_slice())?;
        }
        let path = get_text(table, "path")?;
        let pointer = get_text(table, "pointer")?;
        Ok(BearerSource::JsonFile { path, pointer })
    } else {
        Err(misfit_text("source", "a known source"))
    }
}

/// The fields of an OAuth policy.
pub open spec fn oauth_fields() -> Seq<Seq<char>> {
    seq![
        "kind"@,
        "resource-url"@,
        "redirect-uri"@,
        "client-name"@,
        "client-id"@,
        "client-metadata-url"@,
        "scopes"@,
        "application-type"@,
        "client_secret"@,
    ]
}

/// What a table declares of an OAuth client's registration, over its addresses and name.
pub open spec fn read_registration(
    tree: JsonTree,
    resource_url: Seq<char>,
    redirect_uri: Seq<char>,
    client_name: Seq<char>,
) -> Result<OAuthConfigView, Seq<char>> {
    match possible_text(tree, "client-id"@) {
        Err(complaint) => Err(complaint),
        Ok(client_id) => match possible_text(tree, "client-metadata-url"@) {
            Err(complaint) => Err(complaint),
            Ok(client_metadata_url) => match text_list(tree, "scopes"@) {
                Err(complaint) => Err(complaint),
                Ok(scopes) => match text_or(tree, "application-type"@, "native"@) {
                    Err(complaint) => Err(complaint),
                    Ok(application_type) => Ok(
                        OAuthConfigView {
                            resource_url,
                            redirect_uri,
                            client_name,
                            client_id,
                            client_metadata_url,
                            scopes,
                            application_type,
                        },
                    ),
                },
            },
        },
    }
}

/// What a table declares as an OAuth configuration.
pub open spec fn read_oauth(tree: JsonTree) -> Result<OAuthConfigView, Seq<char>> {
    match required_text(tree, "resource-url"@) {
        Err(complaint) => Err(complaint),
        Ok(resource_url) => match required_text(tree, "redirect-uri"@) {
            Err(complaint) => Err(complaint),
            Ok(redirect_uri) => match text_or(tree, "client-name"@, "b10x MCP client"@) {
                Err(complaint) => Err(complaint),
                Ok(client_name) => read_registration(
                    tree,
                    resource_url,
                    redirect_uri,
                    client_name,
                ),
            },
        },
    }
}

/// Reads what a table declares as an OAuth configuration.
fn get_oauth(table: &Json) -> (r: Result<OAuthConfig, String>)
    ensures
        match r {
            Ok(config) => read_oauth(table@) == Ok::<_, Seq<char>>(config@),
            Err(complaint) => read_oauth(table@) == Err::<OAuthConfigView, _>(complaint@),
        },
{
    let resource_url = get_text(table, "resource-url")?;
    let redirect_uri = get_text(table, "redirect-uri")?;
    let client_name = get_text_or(table, "client-name", default_client_name())?;
    let client_id = get_possible(table, "client-id")?;
    let client_metadata_url = get_possible(table, "client-metadata-url")?;
    let scopes = get_list(table, "scopes")?;
    let application_type = get_text_or(table, "application-type", default_application_type())?;
    Ok(
        OAuthConfig {
            resource_url,
            redirect_uri,
            client_name,
            client_id,
            client_metadata_url,
            scopes,
            application_type,
        },
    )
}

/// What a table declares as the source of a client secret.
pub open spec fn read_client_secret(tree: JsonTree) -> Result<Option<SourceView>, Seq<char>> {
    match tree.member("client_secret"@) {
        None => Ok(None),
        Some(secret) => match read_source(secret, "client_secret"@, false) {
            Err(complaint) => Err(complaint),
            Ok(source) => Ok(Some(source)),
        },
    }
}

/// Reads what a table declares as the source of a client secret.
fn get_client_secret(table: &Json) -> (r: Result<Option<BearerSource>, String>)
    ensures
        match r {
            Ok(source) => read_client_secret(table@) == Ok::<_, Seq<char>>(
                registry::optional_source(source),
            ),
            Err(complaint) => read_client_secret(table@) == Err::<Option<SourceView>, _>(
                complaint@,
            ),
        },
{
    match table.get("client_secret") {
        None => Ok(None),
        Some(secret) => match get_source(secret, "client_secret", false) {
            Ok(source) => Ok(Some(source)),
            Err(complaint) => Err(complaint),
        },
    }
}

/// What a table declares as an authentication policy.
pub open spec fn read_auth(tree: JsonTree) -> Result<AuthView, Seq<char>> {
    if !(tree is Object) {
        Err(misfit("auth"@, "a table"@))
    } else {
        match required_text(tree, "kind"@) {
            Err(complaint) => Err(complaint),
            Ok(kind) => if kind == "none"@ {
                match table_complaint(tree, "auth"@, seq!["kind"@]) {
                    Some(complaint) => Err(complaint),
                    None => Ok(AuthView::Absent),
                }
            } else if kind == "bearer"@ {
                match read_source(tree, "auth"@, true) {
                    Err(complaint) => Err(complaint),
                    Ok(source) => Ok(AuthView::Bearer { source }),
                }
            } else if kind == "oauth"@ {
                match table_complaint(tree, "auth"@, oauth_fields()) {
                    Some(complaint) => Err(complaint),
                    None => match read_oauth(tree) {
                        Err(complaint) => Err(complaint),
                        Ok(config) => match read_client_secret(tree) {
                            Err(complaint) => Err(complaint),
                            Ok(client_secret) => Ok(AuthView::OAuth { config, client_secret }),
                        },
                    },
                }
            } else {
                Err(misfit("kind"@, "a known kind"@))
            },
        }
    }
}

/// Reads what a table declares as an authentication policy.
fn get_auth(table: &Json) -> (r: Result<HttpAuth, String>)
    ensures
        match r {
            Ok(auth) => read_auth(table@) == Ok::<_, Seq<char>>(auth@),
            Err(complaint) => read_auth(table@) == Err::<AuthView, _>(complaint@),
        },
{
    if !table.is_object() {
        return Err(misfit_text("auth", "a table"));
    }
    let kind = get_text(table, "kind")?;
    if same(kind.as_str(), "none") {
        let allowed = ["kind"];
        assert(fields(allowed@) =~= seq!["kind"@]);
        check_table(table, "auth", allowed.as_slice())?;
        Ok(HttpAuth::Absent)
    } else if same(kind.as_str(), "bearer") {
        let source = get_source(table, "auth", true)?;
        Ok(HttpAuth::Bearer { source })
    } else if same(kind.as_str(), "oauth") {
        let allowed = [
            "kind",
            "resource-url",
            "redirect-uri",
            "client-name",
            "client-id",
            "client-metadata-url",
            "scopes",
            "application-type",
            "client_secret",
        ];
        assert(fields(allowed@) =~= oauth_fields());
        check_table(table, "auth", allowed.as_slice())?;
        let config = get_oauth(table)?;
        let client_secret = get_client_secret(table)?;
        Ok(HttpAuth::OAuth { config, client_secret })
    } else {
        Err(misfit_text("kind", "a known kind"))
    }
}

/// What a table declares as an HTTP connection.
pub open spec fn read_http(tree: JsonTree) -> Result<DeclarationView, Seq<char>> {
    match required_text(tree, "url"@) {
        Err(complaint) => Err(complaint),
        Ok(url) => match text_table(tree, "headers"@) {
            Err(complaint) => Err(complaint),
            Ok(headers) => match tree.member("auth"@) {
                None => Ok(DeclarationView::Http { url, headers, auth: AuthView::Absent }),
                Some(auth) => match read_auth(auth) {
                    Err(complaint) => Err(complaint),
                    Ok(auth) => Ok(DeclarationView::Http { url, headers, auth }),
                },
            },
        },
    }
}

/// What a table declares as a stdio connection.
pub open spec fn read_stdio(tree: JsonTree) -> Result<DeclarationView, Seq<char>> {
    match required_text(tree, "program"@) {
        Err(complaint) => Err(complaint),
        Ok(program) => match text_list(tree, "args"@) {
            Err(complaint) => Err(complaint),
            Ok(args) => match required_text(tree, "cwd"@) {
                Err(complaint) => Err(complaint),
                Ok(cwd) => match text_list(tree, "inherit-env"@) {
                    Err(complaint) => Err(complaint),
                    Ok(inherit_env) => Ok(
                        DeclarationView::Stdio { program, args, cwd, inherit_env },
                    ),
                },
            },
        },
    }
}

/// What a table declares as a connection.
pub open spec fn read_declaration(tree: JsonTree) -> Result<DeclarationView, Seq<char>> {
    if !(tree is Object) {
        Err(misfit("connection"@, "a table"@))
    } else {
        match required_text(tree, "transport"@) {
            Err(complaint) => Err(complaint),
            Ok(transport) => if transport == "http"@ {
                match table_complaint(
                    tree,
                    "connection"@,
                    seq!["transport"@, "url"@, "headers"@, "auth"@],
                ) {
                    Some(complaint) => Err(complaint),
                    None => read_http(tree),
                }
            } else if transport == "stdio"@ {
                match table_complaint(
                    tree,
                    "connection"@,
                    seq!["transport"@, "program"@, "args"@, "cwd"@, "inherit-env"@],
                ) {
                    Some(complaint) => Err(complaint),
                    None => read_stdio(tree),
                }
            } else {
                Err(misfit("transport"@, "a known transport"@))
            },
        }
    }
}

/// An outcome of reading a connection, seen through its views.
pub open spec fn declared(r: Result<ConnectionConfig, String>) -> Result<
    DeclarationView,
    Seq<char>,
> {
    match r {
        Ok(config) => Ok(config@),
        Err(complaint) => Err(complaint@),
    }
}

/// Reads what a table declares as an HTTP connection.
fn get_http(table: &Json) -> (r: Result<ConnectionConfig, String>)
    ensures
        declared(r) == read_http(table@),
{
    let url = get_text(table, "url")?;
    let headers = get_text_table(table, "headers")?;
    let auth = match table.get("auth") {
        None => HttpAuth::Absent,
        Some(auth) => match get_auth(auth) {
            Ok(auth) => auth,
            Err(complaint) => return Err(complaint),
        },
    };
    Ok(ConnectionConfig::Http { transport_config: HttpTransportConfig { url, headers }, auth })
}

/// Reads what a table declares as a stdio connection.
fn get_stdio(table: &Json) -> (r: Result<ConnectionConfig, String>)
    ensures
        declared(r) == read_stdio(table@),
{
    let program = get_text(table, "program")?;
    let args = get_list(table, "args")?;
    let cwd = get_text(table, "cwd")?;
    let inherit_env = get_list(table, "inherit-env")?;
    Ok(
        ConnectionConfig::Stdio {
            transport_config: StdioTransportConfig { program, args, cwd, inherit_env },
        },
    )
}

/// Reads what a table declares as a connection.
pub fn get_declaration(table: &Json) -> (r: Result<ConnectionConfig, String>)
    ensures
        declared(r) == read_declaration(table@),
{
    if !table.is_object() {
        return Err(misfit_text("connection", "a table"));
    }
    let transport = get_text(table, "transport")?;
    if same(transport.as_str(), "http") {
        let allowed = ["transport", "url", "headers", "auth"];
        assert(fields(allowed@) =~= seq!["transport"@, "url"@, "headers"@, "auth"@]);
        check_table(table, "connection", allowed.as_slice())?;
        get_http(table)
    } else if same(transport.as_str(), "stdio") {
        let allowed = ["transport", "program", "args", "cwd", "inherit-env"];
        assert(fields(allowed@) =~= seq![
            "transport"@,
            "program"@,
            "args"@,
            "cwd"@,
            "inherit-env"@,
        ]);
        check_table(table, "connection", allowed.as_slice())?;
        get_stdio(table)
    } else {
        Err(misfit_text("transport", "a known transport"))
    }
}

/// Whether a member of the table of connections declares none.
pub open spec fn undeclared(members: Map<Seq<char>, JsonTree>, name: Seq<char>) -> bool {
    members.contains_key(name) && read_declaration(members[name]) is Err
}

/// What a table declares as connections: all of them, or the complaint about the first that
/// it does not.
pub open spec fn read_connections(members: Map<Seq<char>, JsonTree>) -> Result<
    Map<Seq<char>, DeclarationView>,
    Seq<char>,
> {
    if forall|name: Seq<char>| !#[trigger] undeclared(members, name) {
        Ok(members.map_values(|tree: JsonTree| read_declaration(tree)->Ok_0))
    } else {
        let name = text_map::least(|name: Seq<char>| undeclared(members, name));
        Err("connection `"@ + name + "`: "@ + read_declaration(members[name])->Err_0)
    }
}

/// What a document declares as connections.
pub open spec fn read_document(tree: JsonTree) -> Result<
    Map<Seq<char>, DeclarationView>,
    Seq<char>,
> {
    match table_complaint(tree, "registry"@, seq!["connections"@]) {
        Some(complaint) => Err(complaint),
        None => match tree.member("connections"@) {
            None => Ok(Map::empty()),
            Some(JsonTree::Object(members)) => read_connections(members),
            Some(_) => Err(misfit("connections"@, "a table"@)),
        },
    }
}

/// An outcome of reading a registry, seen through its views.
pub open spec fn document_outcome(r: Result<Registry, String>) -> Result<
    Map<Seq<char>, DeclarationView>,
    Seq<char>,
> {
    match r {
        Ok(registry) => Ok(registry@),
        Err(complaint) => Err(complaint@),
    }
}

/// A member that declares no connection, with the complaint about it.
struct Failure {
    name: String,
    complaint: String,
}

/// What has been found of the first member that declares no connection, once the first `n`
/// members have been read.
spec fn found_first(members: Seq<(String, Json)>, n: int, failure: Option<Failure>) -> bool {
    let whole = json::member_trees(members);
    match failure {
        None => forall|j: int|
            0 <= j < n ==> !undeclared(whole, (#[trigger] members[j]).0@),
        Some(first) => {
            &&& undeclared(whole, first.name@)
            &&& read_declaration(whole[first.name@]) == Err::<DeclarationView, _>(
                first.complaint@,
            )
            &&& forall|j: int|
                0 <= j < n && undeclared(whole, (#[trigger] members[j]).0@)
                    ==> !text_map::before(members[j].0@, first.name@)
        },
    }
}

/// Keeps the first of two members that declare no connection.
fn keep_first(
    members: &Vec<(String, Json)>,
    i: usize,
    failure: Option<Failure>,
    complaint: String,
) -> (r: Option<Failure>)
    requires
        i < members@.len(),
        found_first(members@, i as int, failure),
        read_declaration(json::member_trees(members@)[members@[i as int].0@]) == Err::<
            DeclarationView,
            _,
        >(complaint@),
        json::member_trees(members@).contains_key(members@[i as int].0@),
    ensures
        r is Some,
        found_first(members@, i + 1, r),
{
    let name = members[i].0.as_str();
    proof {
        text_map::lemma_irreflexive(name@);
    }
    match failure {
        Some(first) => {
            if stands_before(name, first.name.as_str()) {
                proof {
                    let whole = json::member_trees(members@);
                    assert forall|j: int|
                        0 <= j < i + 1 && undeclared(
                            whole,
                            (#[trigger] members@[j]).0@,
                        ) implies !text_map::before(members@[j].0@, name@) by {
                        if text_map::before(members@[j].0@, name@) {
                            text_map::lemma_transitive(members@[j].0@, name@, first.name@);
                        }
                    }
                }
                Some(Failure { name: name.to_owned(), complaint })
            } else {
                Some(first)
            }
        },
        None => Some(Failure { name: name.to_owned(), complaint }),
    }
}

/// Reads what a table declares as connections.
fn get_connections(table: &Json) -> (r: Result<Registry, String>)
    requires
        table@ is Object,
    ensures
        document_outcome(r) == read_connections(members_of(table@)),
{
    let mut registry = Registry::new();
    let members = match table {
        Json::Object(members) => members,
        _ => return Ok(registry),
    };
    let ghost whole = json::member_trees(members@);
    let mut connections: TextMap<ConnectionConfig> = TextMap::new();
    let mut failure: Option<Failure> = None;
    let mut i: usize = 0;
    while i < members.len()
        invariant
            i <= members@.len(),
            whole == json::member_trees(members@),
            table@ == JsonTree::Object(whole),
            found_first(members@, i as int, failure),
            forall|name: Seq<char>| #[trigger]
                connections@.contains_key(name) ==> whole.contains_key(name) && read_declaration(
                    whole[name],
                ) == Ok::<_, Seq<char>>(connections@[name]@),
            forall|j: int|
                0 <= j < i && !undeclared(whole, (#[trigger] members@[j]).0@)
                    ==> connections@.contains_key(members@[j].0@),
        decreases members@.len() - i,
    {
        let name = members[i].0.as_str();
        proof {
            json::lemma_member_keys(members@, name@);
            assert(members@[i as int].0@ == name@);
            assert(table@.member(name@) == Some(whole[name@]));
        }
        if let Some(member) = table.get(name) {
            match get_declaration(member) {
                Ok(config) => connections.insert(name.to_owned(), config),
                Err(complaint) => {
                    failure = keep_first(members, i, failure, complaint);
                },
            }
        }
        i = i + 1;
    }
    match failure {
        Some(first) => {
            proof {
                let failing = |name: Seq<char>| undeclared(whole, name);
                assert forall|other: Seq<char>| #[trigger] failing(other) implies !text_map::before(
                    other,
                    first.name@,
                ) by {
                    json::lemma_member_keys(members@, other);
                }
                assert(text_map::leads(failing, first.name@));
                text_map::lemma_least(failing, first.name@);
            }
            let mut message = joined("connection `", first.name.as_str(), "`: ");
            message.append(first.complaint.as_str());
            Err(message)
        },
        None => {
            registry.connections = connections;
            proof {
                assert forall|name: Seq<char>| !#[trigger] undeclared(whole, name) by {
                    json::lemma_member_keys(members@, name);
                }
                assert forall|name: Seq<char>| whole.contains_key(
                    name,
                ) implies connections@.contains_key(name) by {
                    json::lemma_member_keys(members@, name);
                }
                assert(registry@ =~= whole.map_values(
                    |tree: JsonTree| read_declaration(tree)->Ok_0,
                ));
            }
            Ok(registry)
        },
    }
}

/// Reads what a document declares as connections.
pub fn get_document(document: &Json) -> (r: Result<Registry, String>)
    ensures
        document_outcome(r) == read_document(document@),
{
    let allowed = ["connections"];
    assert(fields(allowed@) =~= seq!["connections"@]);
    check_table(document, "registry", allowed.as_slice())?;
    match document.get("connections") {
        None => {
            let registry = Registry::new();
            assert(registry@ =~= Map::<Seq<char>, DeclarationView>::empty());
            Ok(registry)
        },
        Some(connections) => if connections.is_object() {
            get_connections(connections)
        } else {
            Err(misfit_text("connections", "a table"))
        },
    }
}

/// The registry that a document was parsed into, or what speaks against it.
pub open spec fn parsed_registry(parsed: Result<JsonTree, Seq<char>>) -> Result<
    Map<Seq<char>, DeclarationView>,
    ErrorView,
> {
    match parsed {
        Err(reason) => Err(ErrorView::Configuration("invalid registry: "@ + reason)),
        Ok(tree) => match read_document(tree) {
            Err(complaint) => Err(ErrorView::Configuration("invalid registry: "@ + complaint)),
            Ok(registry) => match registry::registry_refusal(registry) {
                Some(error) => Err(error),
                None => Ok(registry),
            },
        },
    }
}

impl Registry {
    /// Parses and validates strict TOML.
    pub fn parse(document: &str) -> (r: Result<Self, ClientError>)
        ensures
            error::outcome(r) == parsed_registry(outside::toml_document(document@)),
    {
        match value_from_toml(document) {
            Ok(value) => Registry::accept(Ok(Json::from_value(&value))),
            Err(reason) => Registry::accept(Err(reason)),
        }
    }

    /// Validates a document that was parsed, or not for a reason.
    pub fn accept(parsed: Result<Json, String>) -> (r: Result<Self, ClientError>)
        ensures
            error::outcome(r) == parsed_registry(json::parse_outcome(parsed)),
    {
        let read = match parsed {
            Ok(document) => get_document(&document),
            Err(reason) => Err(reason),
        };
        match read {
            Ok(registry) => match registry.validate() {
                Ok(()) => Ok(registry),
                Err(error) => Err(error),
            },
            Err(complaint) => Err(
                ClientError::Configuration(pair("invalid registry: ", complaint.as_str())),
            ),
        }
    }

    /// Takes a registry from a document that was read, or could not be for a reason.
    pub fn load(content: Result<String, String>) -> (r: Result<Self, ClientError>)
        ensures
            error::outcome(r) == match content {
                Err(reason) => Err(ErrorView::Configuration("reading registry: "@ + reason@)),
                Ok(document) => parsed_registry(outside::toml_document(document@)),
            },
    {
        match content {
            Ok(document) => Registry::parse(document.as_str()),
            Err(reason) => Err(
                ClientError::Configuration(pair("reading registry: ", reason.as_str())),
            ),
        }
    }
}

} // verus!
