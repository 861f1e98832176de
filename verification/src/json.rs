//! JSON values as the library reads them.

use vstd::prelude::*;
use vstd::string::*;

use crate::outside;
use crate::outside::{
    number_clone, value_array, value_bool, value_from_str, value_null, value_number, value_object,
    value_parts, value_text, value_to_pretty, value_to_vec, ValueParts,
};
use crate::text::same;

verus! {

/// What a JSON value means: object members have no order and no repeated key.
#[verifier::ext_equal]
pub enum JsonTree {
    Null,
    Bool(bool),
    Number(serde_json::Number),
    Text(Seq<char>),
    Array(Seq<JsonTree>),
    Object(Map<Seq<char>, JsonTree>),
}

impl JsonTree {
    /// The member of an object under `key`.
    pub open spec fn member(self, key: Seq<char>) -> Option<JsonTree> {
        match self {
            JsonTree::Object(members) => if members.contains_key(key) {
                Some(members[key])
            } else {
                None
            },
            _ => None,
        }
    }

    /// The member under `key` or, in its absence, the one under `other`.
    pub open spec fn member_or(self, key: Seq<char>, other: Seq<char>) -> Option<JsonTree> {
        match self.member(key) {
            Some(tree) => Some(tree),
            None => self.member(other),
        }
    }

    /// The characters of a string value.
    pub open spec fn text(self) -> Option<Seq<char>> {
        match self {
            JsonTree::Text(text) => Some(text),
            _ => None,
        }
    }
}

/// The characters of an optional string value.
pub open spec fn text_of(tree: Option<JsonTree>) -> Option<Seq<char>> {
    match tree {
        Some(tree) => tree.text(),
        None => None,
    }
}

/// A JSON value. Where an object lists a key twice, the later member counts.
#[derive(Debug, PartialEq)]
pub enum Json {
    /// `null`.
    Null,
    /// A boolean.
    Bool(bool),
    /// A number, never read here.
    Number(serde_json::Number),
    /// A string.
    Text(String),
    /// An array.
    Array(Vec<Json>),
    /// An object.
    Object(Vec<(String, Json)>),
}

/// The meaning of a value.
pub open spec fn tree(json: Json) -> JsonTree
    decreases json,
{
    match json {
        Json::Null => JsonTree::Null,
        Json::Bool(flag) => JsonTree::Bool(flag),
        Json::Number(number) => JsonTree::Number(number),
        Json::Text(text) => JsonTree::Text(text@),
        Json::Array(items) => JsonTree::Array(trees(items@)),
        Json::Object(members) => JsonTree::Object(member_trees(members@)),
    }
}

/// The meanings of array items.
pub open spec fn trees(items: Seq<Json>) -> Seq<JsonTree>
    decreases items,
{
    if items.len() == 0 {
        Seq::empty()
    } else {
        trees(items.drop_last()).push(tree(items.last()))
    }
}

/// The meanings of object members.
pub open spec fn member_trees(members: Seq<(String, Json)>) -> Map<Seq<char>, JsonTree>
    decreases members,
{
    if members.len() == 0 {
        Map::empty()
    } else {
        member_trees(members.drop_last()).insert(members.last().0@, tree(members.last().1))
    }
}

impl View for Json {
    type V = JsonTree;

    open spec fn view(&self) -> JsonTree {
        tree(*self)
    }
}

/// Array items keep their order and number.
pub proof fn lemma_trees(items: Seq<Json>)
    ensures
        trees(items).len() == items.len(),
        forall|i: int| 0 <= i < items.len() ==> trees(items)[i] == #[trigger] tree(items[i]),
    decreases items.len(),
{
    if items.len() > 0 {
        lemma_trees(items.drop_last());
        assert forall|i: int| 0 <= i < items.len() implies trees(items)[i] == #[trigger] tree(
            items[i],
        ) by {
            if i < items.len() - 1 {
                assert(items.drop_last()[i] == items[i]);
            }
        }
    }
}

/// Members after position `n` that have another key do not touch the member under `key`.
proof fn lemma_member_last(members: Seq<(String, Json)>, n: int, key: Seq<char>)
    requires
        0 <= n <= members.len(),
        forall|j: int| n <= j < members.len() ==> (#[trigger] members[j]).0@ != key,
    ensures
        member_trees(members).contains_key(key) == member_trees(members.take(n)).contains_key(key),
        member_trees(members).contains_key(key) ==> member_trees(members)[key] == member_trees(
            members.take(n),
        )[key],
    decreases members.len() - n,
{
    if n < members.len() {
        let front = members.drop_last();
        assert(members.last().0@ != key);
        assert forall|j: int| n <= j < front.len() implies (#[trigger] front[j]).0@ != key by {
            assert(front[j] == members[j]);
        }
        lemma_member_last(front, n, key);
        assert(front.take(n) =~= members.take(n));
    } else {
        assert(members.take(n) =~= members);
    }
}

/// The key of some member stands in the list of members.
pub proof fn lemma_member_keys(members: Seq<(String, Json)>, key: Seq<char>)
    ensures
        member_trees(members).contains_key(key) <==> exists|i: int|
            0 <= i < members.len() && (#[trigger] members[i]).0@ == key,
    decreases members.len(),
{
    if members.len() > 0 {
        let front = members.drop_last();
        lemma_member_keys(front, key);
        if member_trees(front).contains_key(key) {
            let i = choose|i: int| 0 <= i < front.len() && (#[trigger] front[i]).0@ == key;
            assert(members[i].0@ == key);
        }
        if exists|i: int| 0 <= i < members.len() && (#[trigger] members[i]).0@ == key {
            let i = choose|i: int| 0 <= i < members.len() && (#[trigger] members[i]).0@ == key;
            if i < front.len() {
                assert(front[i].0@ == key);
            }
        }
        if members.last().0@ == key {
            assert(members[members.len() - 1].0@ == key);
        }
    }
}

/// Pairs whose keys come once give an object exactly the members that they list.
proof fn lemma_pairs(pairs: Seq<(String, serde_json::Value)>, key: Seq<char>)
    requires
        forall|j: int, k: int|
            0 <= j < k < pairs.len() ==> (#[trigger] pairs[j]).0@ != (#[trigger] pairs[k]).0@,
    ensures
        outside::pairs_tree(pairs).contains_key(key) <==> exists|j: int|
            0 <= j < pairs.len() && (#[trigger] pairs[j]).0@ == key,
        forall|j: int|
            0 <= j < pairs.len() && (#[trigger] pairs[j]).0@ == key ==> outside::pairs_tree(
                pairs,
            )[key] == outside::json_tree(pairs[j].1),
    decreases pairs.len(),
{
    if pairs.len() > 0 {
        let front = pairs.drop_last();
        let last = pairs.len() - 1;
        assert forall|j: int, k: int| 0 <= j < k < front.len() implies (#[trigger] front[j]).0@
            != (#[trigger] front[k]).0@ by {
            assert(pairs[j].0@ != pairs[k].0@);
        }
        lemma_pairs(front, key);
        if pairs[last].0@ == key {
            assert forall|j: int| 0 <= j < pairs.len() && (#[trigger] pairs[j]).0@ == key implies j
                == last by {}
        } else {
            assert forall|j: int| 0 <= j < pairs.len() && (#[trigger] pairs[j]).0@
                == key implies front[j] == pairs[j] by {}
            if outside::pairs_tree(front).contains_key(key) {
                let j = choose|j: int| 0 <= j < front.len() && (#[trigger] front[j]).0@ == key;
                assert(pairs[j].0@ == key);
            }
        }
    }
}

/// Whether the key of one of the pairs is `key`.
fn has_key(pairs: &Vec<(String, serde_json::Value)>, key: &str) -> (r: bool)
    ensures
        r <==> exists|j: int| 0 <= j < pairs@.len() && (#[trigger] pairs@[j]).0@ == key@,
{
    let mut i: usize = 0;
    while i < pairs.len()
        invariant
            i <= pairs@.len(),
            forall|j: int| 0 <= j < i ==> (#[trigger] pairs@[j]).0@ != key@,
        decreases pairs@.len() - i,
    {
        if same(pairs[i].0.as_str(), key) {
            assert(pairs@[i as int].0@ == key@);
            return true;
        }
        i = i + 1;
    }
    false
}

/// A pair whose key comes once is the member under its key.
proof fn lemma_member_at(pairs: Seq<(&str, &serde_json::Value)>, i: int)
    requires
        0 <= i < pairs.len(),
        forall|j: int, k: int|
            0 <= j < k < pairs.len() ==> (#[trigger] pairs[j]).0@ != (#[trigger] pairs[k]).0@,
    ensures
        outside::members_tree(pairs).dom().finite(),
        outside::members_tree(pairs).contains_key(pairs[i].0@),
        outside::members_tree(pairs)[pairs[i].0@] == outside::json_tree(*pairs[i].1),
    decreases pairs.len(),
{
    let front = pairs.drop_last();
    if i < front.len() {
        assert(front[i] == pairs[i]);
        assert forall|j: int, k: int| 0 <= j < k < front.len() implies (#[trigger] front[j]).0@
            != (#[trigger] front[k]).0@ by {
            assert(pairs[j].0@ != pairs[k].0@);
        }
        lemma_member_at(front, i);
        assert(pairs[i].0@ != pairs[pairs.len() - 1].0@);
    } else if front.len() > 0 {
        assert forall|j: int, k: int| 0 <= j < k < front.len() implies (#[trigger] front[j]).0@
            != (#[trigger] front[k]).0@ by {
            assert(pairs[j].0@ != pairs[k].0@);
        }
        lemma_member_at(front, 0);
    } else {
        assert(outside::members_tree(front) == Map::<Seq<char>, JsonTree>::empty());
    }
}

/// A parse outcome, seen through its views.
pub open spec fn parse_outcome(r: Result<Json, String>) -> Result<JsonTree, Seq<char>> {
    match r {
        Ok(json) => Ok(json@),
        Err(reason) => Err(reason@),
    }
}

/// Copies object members.
pub fn copy_members(members: &Vec<(String, Json)>) -> (r: Vec<(String, Json)>)
    ensures
        member_trees(r@) == member_trees(members@),
    decreases members,
{
    let mut copies: Vec<(String, Json)> = Vec::new();
    let mut i: usize = 0;
    while i < members.len()
        invariant
            i <= members@.len(),
            member_trees(copies@) == member_trees(members@.take(i as int)),
        decreases members@.len() - i,
    {
        let ghost before = copies@;
        assert(decreases_to!(members => members@[i as int]));
        let value = members[i].1.copy();
        copies.push((members[i].0.clone(), value));
        proof {
            assert(members@.take(i + 1).drop_last() =~= members@.take(i as int));
            assert(copies@.drop_last() =~= before);
        }
        i = i + 1;
    }
    assert(members@.take(i as int) =~= members@);
    copies
}

impl Clone for Json {
    fn clone(&self) -> (r: Self)
        ensures
            r@ == self@,
    {
        self.copy()
    }
}

impl Json {
    /// A copy with the same meaning.
    pub fn copy(&self) -> (r: Json)
        ensures
            r@ == self@,
        decreases self,
    {
        match self {
            Json::Null => Json::Null,
            Json::Bool(flag) => Json::Bool(*flag),
            Json::Number(number) => Json::Number(number_clone(number)),
            Json::Text(text) => Json::Text(text.clone()),
            Json::Array(items) => {
                let mut copies: Vec<Json> = Vec::new();
                let mut i: usize = 0;
                while i < items.len()
                    invariant
                        i <= items@.len(),
                        decreases_to!(self => items),
                        trees(copies@) == trees(items@.take(i as int)),
                    decreases items@.len() - i,
                {
                    let ghost before = copies@;
                    copies.push(items[i].copy());
                    proof {
                        assert(items@.take(i + 1).drop_last() =~= items@.take(i as int));
                        assert(copies@.drop_last() =~= before);
                    }
                    i = i + 1;
                }
                assert(items@.take(i as int) =~= items@);
                Json::Array(copies)
            },
            Json::Object(members) => Json::Object(copy_members(members)),
        }
    }

    /// Whether this is an object.
    pub fn is_object(&self) -> (r: bool)
        ensures
            r == (self@ is Object),
    {
        match self {
            Json::Object(_) => true,
            _ => false,
        }
    }

    /// The member of an object under `key`.
    pub fn get(&self, key: &str) -> (r: Option<&Json>)
        ensures
            r is Some <==> self@.member(key@) is Some,
            r is Some ==> self@.member(key@) == Some(r->0@),
    {
        let members = match self {
            Json::Object(members) => members,
            _ => return None,
        };
        let mut i: usize = members.len();
        assert(members@.take(i as int) =~= members@);
        while i > 0
            invariant
                i <= members@.len(),
                self@ == JsonTree::Object(member_trees(members@)),
                forall|j: int| i <= j < members@.len() ==> (#[trigger] members@[j]).0@ != key@,
            decreases i,
        {
            if same(members[i - 1].0.as_str(), key) {
                proof {
                    lemma_member_last(members@, i as int, key@);
                    assert(members@.take(i as int).last() == members@[i - 1]);
                }
                return Some(&members[i - 1].1);
            }
            i = i - 1;
        }
        proof {
            lemma_member_last(members@, 0, key@);
            assert(members@.take(0) =~= Seq::<(String, Json)>::empty());
        }
        None
    }

    /// The member under `key` or, in its absence, the one under `other`.
    pub fn get_or(&self, key: &str, other: &str) -> (r: Option<&Json>)
        ensures
            r is Some <==> self@.member_or(key@, other@) is Some,
            r is Some ==> self@.member_or(key@, other@) == Some(r->0@),
    {
        match self.get(key) {
            Some(value) => Some(value),
            None => self.get(other),
        }
    }

    /// The characters of a string value.
    pub fn as_text(&self) -> (r: Option<&str>)
        ensures
            r is Some <==> self@.text() is Some,
            r is Some ==> self@.text() == Some(r->0@),
    {
        match self {
            Json::Text(text) => Some(text.as_str()),
            _ => None,
        }
    }

    /// The outside value that holds the same: of members under one key, the last.
    pub fn to_value(&self) -> (r: serde_json::Value)
        ensures
            outside::json_tree(r) == self@,
        decreases self,
    {
        match self {
            Json::Null => value_null(),
            Json::Bool(flag) => value_bool(*flag),
            Json::Number(number) => value_number(number_clone(number)),
            Json::Text(text) => value_text(text.clone()),
            Json::Array(items) => {
                let mut values: Vec<serde_json::Value> = Vec::new();
                let mut i: usize = 0;
                while i < items.len()
                    invariant
                        i <= items@.len(),
                        decreases_to!(self => items),
                        values@.len() == i,
                        forall|j: int|
                            0 <= j < i ==> outside::json_tree(#[trigger] values@[j]) == tree(items@[j]),
                    decreases items@.len() - i,
                {
                    values.push(items[i].to_value());
                    i = i + 1;
                }
                proof {
                    lemma_trees(items@);
                    assert(Seq::new(values@.len(), |j: int| outside::json_tree(values@[j])) =~= trees(
                        items@,
                    ));
                }
                value_array(values)
            },
            Json::Object(members) => {
                let mut pairs: Vec<(String, serde_json::Value)> = Vec::new();
                let mut i: usize = members.len();
                let ghost whole = member_trees(members@);
                while i > 0
                    invariant
                        i <= members@.len(),
                        whole == member_trees(members@),
                        decreases_to!(self => members),
                        forall|j: int, k: int|
                            0 <= j < k < pairs@.len() ==> (#[trigger] pairs@[j]).0@ != (
                            #[trigger] pairs@[k]).0@,
                        forall|j: int|
                            0 <= j < pairs@.len() ==> whole.contains_key(
                                (#[trigger] pairs@[j]).0@,
                            ) && outside::json_tree(pairs@[j].1) == whole[pairs@[j].0@],
                        forall|m: int|
                            i <= m < members@.len() ==> exists|j: int|
                                0 <= j < pairs@.len() && (#[trigger] pairs@[j]).0@ == (
                                #[trigger] members@[m]).0@,
                    decreases i,
                {
                    let ghost before = pairs@;
                    let ghost key = members@[i - 1].0@;
                    if !has_key(&pairs, members[i - 1].0.as_str()) {
                        assert(decreases_to!(members => members@[i - 1]));
                        let value = members[i - 1].1.to_value();
                        proof {
                            assert forall|m: int| i <= m < members@.len() implies (
                            #[trigger] members@[m]).0@ != key by {
                                let j = choose|j: int|
                                    0 <= j < before.len() && (#[trigger] before[j]).0@
                                        == members@[m].0@;
                                assert(before[j].0@ != key);
                            }
                            lemma_member_last(members@, i as int, key);
                            assert(members@.take(i as int).last() == members@[i - 1]);
                        }
                        pairs.push((members[i - 1].0.clone(), value));
                        proof {
                            assert(pairs@[before.len() as int].0@ == key);
                            assert forall|m: int| i <= m < members@.len() implies exists|j: int|
                                0 <= j < pairs@.len() && (#[trigger] pairs@[j]).0@ == (
                                #[trigger] members@[m]).0@ by {
                                let j = choose|j: int|
                                    0 <= j < before.len() && (#[trigger] before[j]).0@
                                        == members@[m].0@;
                                assert(pairs@[j].0@ == members@[m].0@);
                            }
                        }
                    }
                    i = i - 1;
                }
                proof {
                    let held = outside::pairs_tree(pairs@);
                    assert forall|key: Seq<char>|
                        #![trigger held.contains_key(key)]
                        #![trigger whole.contains_key(key)]
                        held.contains_key(key) == whole.contains_key(key) && (held.contains_key(key)
                            ==> held[key] == whole[key]) by {
                        lemma_pairs(pairs@, key);
                        lemma_member_keys(members@, key);
                    }
                    assert(held =~= whole);
                }
                value_object(pairs)
            },
        }
    }

    /// The value that an outside value holds.
    pub fn from_value(value: &serde_json::Value) -> (r: Json)
        ensures
            r@ == outside::json_tree(*value),
        decreases outside::json_tree(*value),
    {
        match value_parts(value) {
            ValueParts::Null => Json::Null,
            ValueParts::Bool(flag) => Json::Bool(flag),
            ValueParts::Number(number) => Json::Number(number_clone(number)),
            ValueParts::Text(text) => Json::Text(text.to_owned()),
            ValueParts::Array(items) => {
                let ghost whole = Seq::new(items@.len(), |i: int| outside::json_tree(*items@[i]));
                let mut copies: Vec<Json> = Vec::new();
                let mut i: usize = 0;
                while i < items.len()
                    invariant
                        i <= items@.len(),
                        whole == Seq::new(items@.len(), |i: int| outside::json_tree(*items@[i])),
                        outside::json_tree(*value) == JsonTree::Array(whole),
                        trees(copies@) == whole.take(i as int),
                    decreases items@.len() - i,
                {
                    let ghost before = copies@;
                    proof {
                        let tree = outside::json_tree(*value);
                        assert(decreases_to!(tree => tree->Array_0));
                        assert(decreases_to!(tree->Array_0 => tree->Array_0[i as int]));
                    }
                    copies.push(Json::from_value(items[i]));
                    proof {
                        assert(copies@.drop_last() =~= before);
                        assert(whole.take(i + 1) =~= whole.take(i as int).push(whole[i as int]));
                    }
                    i = i + 1;
                }
                assert(whole.take(i as int) =~= whole);
                Json::Array(copies)
            },
            ValueParts::Object(pairs) => {
                let mut members: Vec<(String, Json)> = Vec::new();
                let mut i: usize = 0;
                let ghost whole = outside::members_tree(pairs@);
                assert(pairs@.take(0) =~= Seq::<(&str, &serde_json::Value)>::empty());
                while i < pairs.len()
                    invariant
                        i <= pairs@.len(),
                        whole == outside::members_tree(pairs@),
                        outside::json_tree(*value) == JsonTree::Object(whole),
                        forall|j: int, k: int|
                            0 <= j < k < pairs@.len() ==> (#[trigger] pairs@[j]).0@ != (
                            #[trigger] pairs@[k]).0@,
                        member_trees(members@) == outside::members_tree(pairs@.take(i as int)),
                    decreases pairs@.len() - i,
                {
                    let ghost before = members@;
                    proof {
                        let tree = outside::json_tree(*value);
                        let key = pairs@[i as int].0@;
                        lemma_member_at(pairs@, i as int);
                        assert(decreases_to!(tree => tree->Object_0));
                        assert(decreases_to!(tree->Object_0 => tree->Object_0[key]));
                    }
                    let member = Json::from_value(pairs[i].1);
                    members.push((pairs[i].0.to_owned(), member));
                    proof {
                        assert(pairs@.take(i + 1).drop_last() =~= pairs@.take(i as int));
                        assert(members@.drop_last() =~= before);
                    }
                    i = i + 1;
                }
                assert(pairs@.take(i as int) =~= pairs@);
                Json::Object(members)
            },
        }
    }

    /// The value that a text spells, or why it spells none.
    pub fn parse(text: &str) -> (r: Result<Json, String>)
        ensures
            parse_outcome(r) == outside::json_text(text@),
    {
        match value_from_str(text) {
            Ok(value) => Ok(Json::from_value(&value)),
            Err(reason) => Err(reason),
        }
    }

    /// The indented text of this value.
    pub fn pretty(&self) -> (r: String)
        ensures
            r@ == outside::json_pretty(self@),
    {
        let value = self.to_value();
        match value_to_pretty(&value) {
            Ok(text) => text,
            Err(_) => String::new(),
        }
    }

    /// The compact encoding of this value.
    pub fn encode(&self) -> (r: Vec<u8>)
        ensures
            r@ == outside::json_bytes(self@),
    {
        let value = self.to_value();
        match value_to_vec(&value) {
            Ok(bytes) => bytes,
            Err(_) => Vec::new(),
        }
    }
}

} // verus!
