//! Maps from text, kept in the order of their keys.

use vstd::prelude::*;
use vstd::string::*;

use crate::text::characters;

verus! {

/// Lexicographic order of character sequences.
pub open spec fn before(a: Seq<char>, b: Seq<char>) -> bool
    decreases a.len(),
{
    if b.len() == 0 {
        false
    } else if a.len() == 0 {
        true
    } else if a[0] != b[0] {
        a[0] < b[0]
    } else {
        before(a.skip(1), b.skip(1))
    }
}

/// No sequence stands before itself.
pub proof fn lemma_irreflexive(a: Seq<char>)
    ensures
        !before(a, a),
    decreases a.len(),
{
    if a.len() > 0 {
        lemma_irreflexive(a.skip(1));
    }
}

/// The order is transitive.
pub proof fn lemma_transitive(a: Seq<char>, b: Seq<char>, c: Seq<char>)
    requires
        before(a, b),
        before(b, c),
    ensures
        before(a, c),
    decreases a.len(),
{
    if a.len() > 0 && b.len() > 0 && c.len() > 0 && a[0] == b[0] && b[0] == c[0] {
        lemma_transitive(a.skip(1), b.skip(1), c.skip(1));
    }
}

/// Of two different sequences one stands before the other.
pub proof fn lemma_total(a: Seq<char>, b: Seq<char>)
    requires
        !before(a, b),
        !before(b, a),
    ensures
        a == b,
    decreases a.len(),
{
    if a.len() > 0 && b.len() > 0 {
        lemma_total(a.skip(1), b.skip(1));
        assert(a =~= seq![a[0]] + a.skip(1));
        assert(b =~= seq![b[0]] + b.skip(1));
    }
    assert(a =~= b);
}

/// How two sequences that agree on their first `i` characters compare.
proof fn lemma_common_prefix(a: Seq<char>, b: Seq<char>, i: int)
    requires
        0 <= i <= a.len(),
        i <= b.len(),
        a.take(i) == b.take(i),
    ensures
        before(a, b) == before(a.skip(i), b.skip(i)),
    decreases i,
{
    if i > 0 {
        assert(a.take(i)[0] == a[0] && b.take(i)[0] == b[0]);
        assert(a.skip(1).take(i - 1) =~= a.take(i).skip(1));
        assert(b.skip(1).take(i - 1) =~= b.take(i).skip(1));
        lemma_common_prefix(a.skip(1), b.skip(1), i - 1);
        assert(a.skip(1).skip(i - 1) =~= a.skip(i));
        assert(b.skip(1).skip(i - 1) =~= b.skip(i));
    } else {
        assert(a.skip(0) =~= a);
        assert(b.skip(0) =~= b);
    }
}

/// Decides the order of two strings.
pub fn stands_before(a: &str, b: &str) -> (r: bool)
    ensures
        r == before(a@, b@),
{
    let left = characters(a);
    let right = characters(b);
    let mut i: usize = 0;
    while i < left.len() && i < right.len() && left[i] == right[i]
        invariant
            i <= left@.len(),
            i <= right@.len(),
            left@.take(i as int) == right@.take(i as int),
        decreases left@.len() - i,
    {
        assert(left@.take(i + 1) =~= left@.take(i as int).push(left@[i as int]));
        assert(right@.take(i + 1) =~= right@.take(i as int).push(right@[i as int]));
        i = i + 1;
    }
    proof {
        lemma_common_prefix(left@, right@, i as int);
    }
    if i == right.len() {
        false
    } else if i == left.len() {
        true
    } else {
        left[i] < right[i]
    }
}

/// A map from text to values.
#[derive(Debug, PartialEq, Eq)]
pub struct TextMap<V> {
    entries: Vec<(String, V)>,
}

/// Whether a key is one of some, and none of them stands before it.
pub open spec fn leads(keys: spec_fn(Seq<char>) -> bool, key: Seq<char>) -> bool {
    keys(key) && forall|other: Seq<char>| #[trigger]
        keys(other) ==> !before(other, key)
}

/// The first of some keys in their order.
pub open spec fn least(keys: spec_fn(Seq<char>) -> bool) -> Seq<char> {
    choose|key: Seq<char>| leads(keys, key)
}

/// The first of some keys is the one that none stands before.
pub proof fn lemma_least(keys: spec_fn(Seq<char>) -> bool, key: Seq<char>)
    requires
        leads(keys, key),
    ensures
        least(keys) == key,
{
    let found = least(keys);
    assert(leads(keys, found));
    lemma_total(found, key);
}

/// Pairs with ascending keys.
pub open spec fn ascending<V>(pairs: Seq<(Seq<char>, V)>) -> bool {
    forall|i: int, j: int|
        0 <= i < j < pairs.len() ==> before((#[trigger] pairs[i]).0, (#[trigger] pairs[j]).0)
}

/// The map that pairs list, the later of two under one key.
pub open spec fn listed<V>(pairs: Seq<(Seq<char>, V)>) -> Map<Seq<char>, V>
    decreases pairs.len(),
{
    if pairs.len() == 0 {
        Map::empty()
    } else {
        listed(pairs.drop_last()).insert(pairs.last().0, pairs.last().1)
    }
}

/// Every key of a listed map stands in the list.
pub proof fn lemma_listed_keys<V>(pairs: Seq<(Seq<char>, V)>, key: Seq<char>)
    ensures
        listed(pairs).contains_key(key) <==> exists|i: int|
            0 <= i < pairs.len() && (#[trigger] pairs[i]).0 == key,
    decreases pairs.len(),
{
    if pairs.len() > 0 {
        let front = pairs.drop_last();
        lemma_listed_keys(front, key);
        if listed(front).contains_key(key) {
            let i = choose|i: int| 0 <= i < front.len() && (#[trigger] front[i]).0 == key;
            assert(pairs[i].0 == key);
        }
        if exists|i: int| 0 <= i < pairs.len() && (#[trigger] pairs[i]).0 == key {
            let i = choose|i: int| 0 <= i < pairs.len() && (#[trigger] pairs[i]).0 == key;
            if i < front.len() {
                assert(front[i].0 == key);
            }
        }
        if pairs.last().0 == key {
            assert(pairs[pairs.len() - 1].0 == key);
        }
    }
}

/// In a list with ascending keys each pair counts.
pub proof fn lemma_listed_at<V>(pairs: Seq<(Seq<char>, V)>, i: int)
    requires
        ascending(pairs),
        0 <= i < pairs.len(),
    ensures
        listed(pairs).contains_key(pairs[i].0),
        listed(pairs)[pairs[i].0] == pairs[i].1,
    decreases pairs.len(),
{
    let front = pairs.drop_last();
    if i < front.len() {
        assert forall|a: int, b: int| 0 <= a < b < front.len() implies before(
            (#[trigger] front[a]).0,
            (#[trigger] front[b]).0,
        ) by {
            assert(before(pairs[a].0, pairs[b].0));
        }
        lemma_listed_at(front, i);
        assert(front[i] == pairs[i]);
        assert(before(pairs[i].0, pairs[pairs.len() - 1].0));
        lemma_irreflexive(pairs[i].0);
    }
}

/// A list with ascending keys gives a pair in its map, and no other value under its key.
proof fn lemma_listed_is<V>(pairs: Seq<(Seq<char>, V)>, key: Seq<char>, value: V)
    requires
        ascending(pairs),
    ensures
        listed(pairs).contains_key(key) && listed(pairs)[key] == value <==> exists|i: int|
            0 <= i < pairs.len() && #[trigger] pairs[i] == (key, value),
{
    lemma_listed_keys(pairs, key);
    if listed(pairs).contains_key(key) {
        let i = choose|i: int| 0 <= i < pairs.len() && (#[trigger] pairs[i]).0 == key;
        lemma_listed_at(pairs, i);
        assert(pairs[i] == (key, listed(pairs)[key]));
    }
    if exists|i: int| 0 <= i < pairs.len() && #[trigger] pairs[i] == (key, value) {
        let i = choose|i: int| 0 <= i < pairs.len() && #[trigger] pairs[i] == (key, value);
        lemma_listed_at(pairs, i);
    }
}

/// A pair put in its place, over the one with its key if there is one.
pub open spec fn placed<V>(
    pairs: Seq<(Seq<char>, V)>,
    i: int,
    over: bool,
    key: Seq<char>,
    value: V,
) -> Seq<(Seq<char>, V)> {
    pairs.take(i).push((key, value)) + pairs.skip(
        if over {
            i + 1
        } else {
            i
        },
    )
}

/// Putting a pair in its place leaves what stands under other keys.
proof fn lemma_placed_elsewhere<V>(
    pairs: Seq<(Seq<char>, V)>,
    i: int,
    over: bool,
    key: Seq<char>,
    value: V,
    k: Seq<char>,
    v: V,
)
    requires
        ascending(pairs),
        ascending(placed(pairs, i, over, key, value)),
        0 <= i <= pairs.len(),
        over ==> i < pairs.len() && pairs[i].0 == key,
        k != key,
    ensures
        listed(placed(pairs, i, over, key, value)).contains_key(k) && listed(
            placed(pairs, i, over, key, value),
        )[k] == v <==> listed(pairs).contains_key(k) && listed(pairs)[k] == v,
{
    let new = placed(pairs, i, over, key, value);
    let shift: int = if over {
        0
    } else {
        1
    };
    lemma_listed_is(new, k, v);
    lemma_listed_is(pairs, k, v);
    if exists|j: int| 0 <= j < new.len() && #[trigger] new[j] == (k, v) {
        let j = choose|j: int| 0 <= j < new.len() && #[trigger] new[j] == (k, v);
        if j < i {
            assert(pairs[j] == (k, v));
        } else {
            assert(pairs[j - shift] == (k, v));
        }
    }
    if exists|j: int| 0 <= j < pairs.len() && #[trigger] pairs[j] == (k, v) {
        let j = choose|j: int| 0 <= j < pairs.len() && #[trigger] pairs[j] == (k, v);
        if j < i {
            assert(new[j] == (k, v));
        } else {
            assert(new[j + shift] == (k, v));
        }
    }
}

/// Putting a pair in its place keeps the order and is insertion into the map.
proof fn lemma_placed<V>(
    pairs: Seq<(Seq<char>, V)>,
    i: int,
    over: bool,
    key: Seq<char>,
    value: V,
)
    requires
        ascending(pairs),
        0 <= i <= pairs.len(),
        forall|j: int| 0 <= j < i ==> before((#[trigger] pairs[j]).0, key),
        over ==> i < pairs.len() && pairs[i].0 == key,
        !over && i < pairs.len() ==> before(key, pairs[i].0),
    ensures
        ascending(placed(pairs, i, over, key, value)),
        listed(placed(pairs, i, over, key, value)) == listed(pairs).insert(key, value),
{
    let new = placed(pairs, i, over, key, value);
    let shift: int = if over {
        0
    } else {
        1
    };
    assert forall|j: int| i < j < new.len() implies #[trigger] new[j] == pairs[j - shift] && before(
        key,
        pairs[j - shift].0,
    ) by {
        let k = j - shift;
        if over {
            assert(before(pairs[i].0, pairs[k].0));
        } else if k > i {
            assert(before(pairs[i].0, pairs[k].0));
            lemma_transitive(key, pairs[i].0, pairs[k].0);
        }
    }
    assert forall|j: int| 0 <= j < i implies #[trigger] new[j] == pairs[j] by {}
    assert(new[i] == (key, value));
    assert forall|a: int, b: int| 0 <= a < b < new.len() implies before(
        (#[trigger] new[a]).0,
        (#[trigger] new[b]).0,
    ) by {
        if b < i {
            assert(before(pairs[a].0, pairs[b].0));
        } else if a > i {
            assert(before(pairs[a - shift].0, pairs[b - shift].0));
        } else if a < i && b > i {
            assert(new[b] == pairs[b - shift]);
            lemma_transitive(pairs[a].0, key, pairs[b - shift].0);
        }
    }
    let left = listed(new);
    let right = listed(pairs).insert(key, value);
    lemma_listed_at(new, i);
    assert forall|k: Seq<char>|
        #![trigger left.dom().contains(k)]
        #![trigger right.dom().contains(k)]
        left.dom().contains(k) == right.dom().contains(k) && (left.dom().contains(k) ==> left[k]
            == right[k]) by {
        if k != key {
            lemma_placed_elsewhere(pairs, i, over, key, value, k, listed(new)[k]);
            lemma_placed_elsewhere(pairs, i, over, key, value, k, listed(pairs)[k]);
        }
    }
    assert(left.dom() =~= right.dom());
    assert(left =~= right);
}

impl<V> View for TextMap<V> {
    type V = Map<Seq<char>, V>;

    open spec fn view(&self) -> Map<Seq<char>, V> {
        listed(self.pairs())
    }
}

impl<V: Clone> Clone for TextMap<V> {
    fn clone(&self) -> (r: Self)
        ensures
            ascending(self.pairs()),
            ascending(r.pairs()),
            r.pairs().len() == self.pairs().len(),
            forall|i: int|
                0 <= i < self.pairs().len() ==> (#[trigger] r.pairs()[i]).0 == self.pairs()[i].0
                    && cloned(self.pairs()[i].1, r.pairs()[i].1),
    {
        proof {
            use_type_invariant(self);
        }
        let mut entries: Vec<(String, V)> = Vec::new();
        let mut i: usize = 0;
        while i < self.entries.len()
            invariant
                i <= self.entries@.len(),
                entries@.len() == i,
                forall|j: int|
                    0 <= j < i ==> (#[trigger] entries@[j]).0@ == self.entries@[j].0@ && cloned(
                        self.entries@[j].1,
                        entries@[j].1,
                    ),
            decreases self.entries@.len() - i,
        {
            entries.push((self.entries[i].0.clone(), self.entries[i].1.clone()));
            i = i + 1;
        }
        proof {
            let old_pairs = entry_pairs(self.entries@);
            let new_pairs = entry_pairs(entries@);
            assert forall|a: int, b: int| 0 <= a < b < new_pairs.len() implies before(
                (#[trigger] new_pairs[a]).0,
                (#[trigger] new_pairs[b]).0,
            ) by {
                assert(before(old_pairs[a].0, old_pairs[b].0));
            }
        }
        TextMap { entries }
    }
}

impl<V> TextMap<V> {
    /// The entries in the order of their keys.
    pub closed spec fn pairs(self) -> Seq<(Seq<char>, V)> {
        entry_pairs(self.entries@)
    }

    #[verifier::type_invariant]
    spec fn ordered(self) -> bool {
        ascending(entry_pairs(self.entries@))
    }

    /// An empty map.
    pub fn new() -> (r: Self)
        ensures
            r.pairs() == Seq::<(Seq<char>, V)>::empty(),
            r@ == Map::<Seq<char>, V>::empty(),
    {
        let entries: Vec<(String, V)> = Vec::new();
        assert(entry_pairs(entries@) =~= Seq::<(Seq<char>, V)>::empty());
        TextMap { entries }
    }

    /// The number of entries.
    pub fn len(&self) -> (r: usize)
        ensures
            r == self.pairs().len(),
            ascending(self.pairs()),
    {
        proof {
            use_type_invariant(self);
        }
        self.entries.len()
    }

    /// The key of an entry.
    pub fn key(&self, i: usize) -> (r: &str)
        requires
            i < self.pairs().len(),
        ensures
            r@ == self.pairs()[i as int].0,
    {
        self.entries[i].0.as_str()
    }

    /// The value of an entry.
    pub fn value(&self, i: usize) -> (r: &V)
        requires
            i < self.pairs().len(),
        ensures
            *r == self.pairs()[i as int].1,
    {
        &self.entries[i].1
    }

    /// Where `key` stands, or would stand.
    fn place(&self, key: &str) -> (r: usize)
        ensures
            r <= self.entries@.len(),
            ascending(self.pairs()),
            forall|i: int| 0 <= i < r ==> before((#[trigger] self.pairs()[i]).0, key@),
            r < self.entries@.len() ==> !before(self.pairs()[r as int].0, key@),
    {
        proof {
            use_type_invariant(self);
        }
        let mut i: usize = 0;
        while i < self.entries.len() && stands_before(self.entries[i].0.as_str(), key)
            invariant
                i <= self.entries@.len(),
                forall|j: int| 0 <= j < i ==> before((#[trigger] self.pairs()[j]).0, key@),
            decreases self.entries@.len() - i,
        {
            i = i + 1;
        }
        i
    }

    /// Puts `value` under `key`, in place of what stood there.
    pub fn insert(&mut self, key: String, value: V)
        ensures
            final(self)@ == old(self)@.insert(key@, value),
    {
        let i: usize = self.place(key.as_str());
        let over = i < self.entries.len() && !stands_before(
            key.as_str(),
            self.entries[i].0.as_str(),
        );
        let ghost pairs = self.pairs();
        let mut entries: Vec<(String, V)> = Vec::new();
        assert(entry_pairs(entries@) =~= Seq::<(Seq<char>, V)>::empty());
        std::mem::swap(&mut entries, &mut self.entries);
        proof {
            if over {
                lemma_total(pairs[i as int].0, key@);
            } else if i < pairs.len() {
                assert(before(key@, pairs[i as int].0));
            }
            lemma_placed(pairs, i as int, over, key@, value);
        }
        if over {
            entries.remove(i);
        }
        entries.insert(i, (key, value));
        assert(entry_pairs(entries@) =~= placed(pairs, i as int, over, key@, value));
        self.entries = entries;
    }

    /// The value under `key`.
    pub fn get(&self, key: &str) -> (r: Option<&V>)
        ensures
            r is Some <==> self@.contains_key(key@),
            r is Some ==> *r->0 == self@[key@],
    {
        let i: usize = self.place(key);
        if i < self.entries.len() && !stands_before(key, self.entries[i].0.as_str()) {
            proof {
                lemma_total(self.pairs()[i as int].0, key@);
                lemma_listed_at(self.pairs(), i as int);
            }
            Some(&self.entries[i].1)
        } else {
            proof {
                lemma_listed_keys(self.pairs(), key@);
                assert forall|j: int| 0 <= j < self.pairs().len() implies (
                #[trigger] self.pairs()[j]).0 != key@ by {
                    lemma_irreflexive(key@);
                    if j > i {
                        assert(before(self.pairs()[i as int].0, self.pairs()[j].0));
                        lemma_transitive(key@, self.pairs()[i as int].0, self.pairs()[j].0);
                    }
                }
            }
            None
        }
    }
}

/// Entries, seen through their keys' characters.
pub open spec fn entry_pairs<V>(entries: Seq<(String, V)>) -> Seq<(Seq<char>, V)> {
    Seq::new(entries.len(), |i: int| (entries[i].0@, entries[i].1))
}

/// The last key of ascending pairs stands after every other key of their map.
proof fn lemma_last_key<V>(pairs: Seq<(Seq<char>, V)>, key: Seq<char>)
    requires
        ascending(pairs),
        pairs.len() > 0,
        listed(pairs).contains_key(key),
    ensures
        key == pairs.last().0 || before(key, pairs.last().0),
        listed(pairs).contains_key(pairs.last().0),
        listed(pairs)[pairs.last().0] == pairs.last().1,
{
    lemma_listed_keys(pairs, key);
    let i = choose|i: int| 0 <= i < pairs.len() && (#[trigger] pairs[i]).0 == key;
    if i < pairs.len() - 1 {
        assert(before(pairs[i].0, pairs[pairs.len() - 1].0));
    }
}

/// Without its last pair an ascending list lists the same map without that key.
proof fn lemma_without_last<V>(pairs: Seq<(Seq<char>, V)>)
    requires
        ascending(pairs),
        pairs.len() > 0,
    ensures
        ascending(pairs.drop_last()),
        listed(pairs.drop_last()) == listed(pairs).remove(pairs.last().0),
{
    let front = pairs.drop_last();
    let last = pairs.last().0;
    assert forall|i: int, j: int| 0 <= i < j < front.len() implies before(
        (#[trigger] front[i]).0,
        (#[trigger] front[j]).0,
    ) by {
        assert(before(pairs[i].0, pairs[j].0));
    }
    lemma_listed_keys(front, last);
    if listed(front).contains_key(last) {
        let i = choose|i: int| 0 <= i < front.len() && (#[trigger] front[i]).0 == last;
        assert(before(pairs[i].0, pairs[pairs.len() - 1].0));
        lemma_irreflexive(last);
    }
    assert(listed(front) =~= listed(pairs).remove(last));
}

/// A map has one listing in the order of its keys.
pub proof fn law_listing_is_unique<V>(a: Seq<(Seq<char>, V)>, b: Seq<(Seq<char>, V)>)
    requires
        ascending(a),
        ascending(b),
        listed(a) == listed(b),
    ensures
        a == b,
    decreases a.len(),
{
    if a.len() == 0 {
        if b.len() > 0 {
            assert(listed(b).contains_key(b.last().0));
            assert(!listed(a).contains_key(b.last().0));
        }
        assert(a =~= b);
    } else if b.len() == 0 {
        assert(listed(a).contains_key(a.last().0));
        assert(!listed(b).contains_key(a.last().0));
    } else {
        let x = a.last().0;
        let y = b.last().0;
        assert(listed(a).contains_key(x) && listed(b).contains_key(y));
        lemma_last_key(b, x);
        lemma_last_key(a, y);
        lemma_irreflexive(x);
        if before(x, y) && before(y, x) {
            lemma_transitive(x, y, x);
        }
        lemma_without_last(a);
        lemma_without_last(b);
        law_listing_is_unique(a.drop_last(), b.drop_last());
        assert(a =~= a.drop_last().push(a.last()));
        assert(b =~= b.drop_last().push(b.last()));
    }
}

/// Pairs with each value seen through a function.
pub open spec fn seen<V, W>(pairs: Seq<(Seq<char>, V)>, f: spec_fn(V) -> W) -> Seq<
    (Seq<char>, W),
> {
    Seq::new(pairs.len(), |i: int| (pairs[i].0, f(pairs[i].1)))
}

/// Pairs seen through a function list the map seen through it.
pub proof fn lemma_seen<V, W>(pairs: Seq<(Seq<char>, V)>, f: spec_fn(V) -> W)
    ensures
        listed(seen(pairs, f)) == listed(pairs).map_values(f),
        ascending(pairs) ==> ascending(seen(pairs, f)),
    decreases pairs.len(),
{
    if pairs.len() > 0 {
        lemma_seen(pairs.drop_last(), f);
        assert(seen(pairs, f).drop_last() =~= seen(pairs.drop_last(), f));
    }
    assert(listed(seen(pairs, f)) =~= listed(pairs).map_values(f));
    if ascending(pairs) {
        let all = seen(pairs, f);
        assert forall|i: int, j: int| 0 <= i < j < all.len() implies before(
            (#[trigger] all[i]).0,
            (#[trigger] all[j]).0,
        ) by {
            assert(before(pairs[i].0, pairs[j].0));
        }
    }
}

} // verus!
