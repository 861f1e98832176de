//! What texts, numbers and values in them stand for.

use vstd::prelude::*;

use crate::frames;
use crate::error::ErrorView;
use crate::json;
use crate::json::{Json, JsonTree};
use crate::limits;
use crate::text;
use crate::text::Class;
use crate::text_map;

verus! {

/// The number of a digit's character in base sixteen.
pub open spec fn digit_code(d: int) -> int {
    if d < 10 {
        '0' as int + d
    } else {
        'a' as int + d - 10
    }
}

/// Each digit is the character of its own number.
proof fn lemma_digit(d: int)
    requires
        0 <= d < 16,
    ensures
        text::digit(d) as int == digit_code(d),
{
    reveal_strlit("0123456789abcdef");
}

/// A number is written by its digits: the last is what is left over by ten, and those before it
/// write how many tens there are.
pub proof fn law_numbers_are_written_by_their_digits(n: nat)
    ensures
        text::decimal(n).len() > 0,
        text::decimal(n).last() as int == '0' as int + n % 10,
        n < 10 ==> text::decimal(n).len() == 1,
        n >= 10 ==> text::decimal(n).drop_last() == text::decimal(n / 10),
{
    lemma_digit((n % 10) as int);
    if n >= 10 {
        assert(text::decimal(n).drop_last() =~= text::decimal(n / 10));
    }
}

/// Bytes are written by two digits each, in their order, the upper half first.
pub proof fn law_bytes_are_written_by_their_halves(bytes: Seq<u8>, byte: u8)
    ensures
        text::hexadecimal(Seq::empty()).len() == 0,
        ({
            let whole = text::hexadecimal(bytes.push(byte));
            &&& whole.len() == text::hexadecimal(bytes).len() + 2
            &&& text::hexadecimal(bytes).is_prefix_of(whole)
            &&& whole[whole.len() - 2] as int == digit_code(byte as int / 16)
            &&& whole[whole.len() - 1] as int == digit_code(byte as int % 16)
        }),
{
    let whole = text::hexadecimal(bytes.push(byte));
    let front = text::hexadecimal(bytes);
    assert(bytes.push(byte).drop_last() =~= bytes);
    lemma_digit(byte as int / 16);
    lemma_digit(byte as int % 16);
    assert(whole.take(front.len() as int) =~= front);
}

/// Different bytes are written differently.
pub proof fn law_different_bytes_are_written_differently(a: Seq<u8>, b: Seq<u8>)
    requires
        text::hexadecimal(a) == text::hexadecimal(b),
    ensures
        a == b,
    decreases a.len(),
{
    text::lemma_hexadecimal(a);
    text::lemma_hexadecimal(b);
    if a.len() > 0 {
        let x = a.last();
        let y = b.last();
        law_bytes_are_written_by_their_halves(a.drop_last(), x);
        law_bytes_are_written_by_their_halves(b.drop_last(), y);
        assert(a.drop_last().push(x) =~= a);
        assert(b.drop_last().push(y) =~= b);
        let whole = text::hexadecimal(a);
        assert(text::hexadecimal(a.drop_last()) =~= whole.take(whole.len() - 2));
        assert(text::hexadecimal(b.drop_last()) =~= whole.take(whole.len() - 2));
        law_different_bytes_are_written_differently(a.drop_last(), b.drop_last());
        assert(digit_code(x as int / 16) == digit_code(y as int / 16));
        assert(digit_code(x as int % 16) == digit_code(y as int % 16));
        assert(x as int / 16 == y as int / 16);
        assert(x as int % 16 == y as int % 16);
        assert(x == y);
    } else {
        assert(a =~= b);
    }
}

/// A size that is written is read back.
pub proof fn law_sizes_are_read_back(n: usize)
    ensures
        text::parsed_size(text::decimal(n as nat)) == Some(n as nat),
{
    lemma_digits_read_back(n as nat);
    let digits = text::decimal(n as nat);
    lemma_first_digit(n as nat);
}

/// The digits of a number give it back.
proof fn lemma_digits_read_back(n: nat)
    ensures
        text::digits_value(text::decimal(n)) == Some(n),
    decreases n,
{
    law_numbers_are_written_by_their_digits(n);
    let digits = text::decimal(n);
    assert('0' <= digits.last() <= '9');
    if n >= 10 {
        lemma_digits_read_back(n / 10);
        assert(n == (n / 10) * 10 + n % 10);
    } else {
        assert(digits.drop_last() =~= Seq::<char>::empty());
        assert(text::digits_value(digits.drop_last()) == Some(0nat));
    }
}

/// A number starts with a digit.
proof fn lemma_first_digit(n: nat)
    ensures
        text::decimal(n).len() > 0,
        text::decimal(n)[0] != '+',
    decreases n,
{
    law_numbers_are_written_by_their_digits(n);
    if n >= 10 {
        lemma_first_digit(n / 10);
        assert(text::decimal(n)[0] == text::decimal(n).drop_last()[0]);
    }
}

/// A size is a run of digits after at most one sign: one more digit makes it ten times as large
/// and adds the digit, and anything else is no size.
pub proof fn law_sizes_are_runs_of_digits(s: Seq<char>, c: char)
    ensures
        text::digits_value(Seq::empty()) == Some(0nat),
        text::digits_value(s.push(c)) is Some <==> text::digits_value(s) is Some && '0' <= c
            <= '9',
        text::digits_value(s.push(c)) is Some ==> text::digits_value(s.push(c))->0
            == text::digits_value(s)->0 * 10 + (c as int - '0' as int),
        text::parsed_size(Seq::empty()) is None,
        s.len() > 0 && s[0] != '+' ==> text::parsed_size(s) == (if text::digits_value(s) is Some
            && text::digits_value(s)->0 <= usize::MAX {
            text::digits_value(s)
        } else {
            None
        }),
{
    assert(s.push(c).drop_last() =~= s);
}

/// Trimming cuts members of a class from both ends and nothing else, and leaves none there.
pub proof fn law_trimming_cuts_the_ends(s: Seq<char>, class: Class)
    ensures
        exists|from: int, to: int|
            #![trigger s.subrange(from, to)]
            {
                &&& 0 <= from <= to <= s.len()
                &&& text::trimmed(s, class) == s.subrange(from, to)
                &&& forall|i: int| 0 <= i < from ==> class.holds(#[trigger] s[i])
                &&& forall|i: int| to <= i < s.len() ==> class.holds(#[trigger] s[i])
                &&& from < to ==> !class.holds(s[from]) && !class.holds(s[to - 1])
            },
{
    let from = text::leading(s, class);
    text::lemma_leading_bounds(s, class);
    let tail = s.skip(from);
    let cut = text::trailing(tail, class);
    lemma_trailing_bounds(tail, class);
    let to = s.len() - cut;
    assert(text::trimmed(s, class) =~= s.subrange(from, to));
    assert forall|i: int| to <= i < s.len() implies class.holds(#[trigger] s[i]) by {
        assert(tail[i - from] == s[i]);
    }
    if from < to {
        assert(tail[tail.len() - cut - 1] == s[to - 1]);
    }
}

/// Trailing characters are members, from a stranger or the start on.
proof fn lemma_trailing_bounds(s: Seq<char>, class: Class)
    ensures
        0 <= text::trailing(s, class) <= s.len(),
        forall|i: int|
            s.len() - text::trailing(s, class) <= i < s.len() ==> class.holds(#[trigger] s[i]),
        text::trailing(s, class) < s.len() ==> !class.holds(
            s[s.len() - text::trailing(s, class) - 1],
        ),
    decreases s.len(),
{
    if s.len() > 0 && class.holds(s.last()) {
        let front = s.drop_last();
        lemma_trailing_bounds(front, class);
        assert forall|i: int|
            s.len() - text::trailing(s, class) <= i < s.len() implies class.holds(
            #[trigger] s[i],
        ) by {
            if i < front.len() {
                assert(front[i] == s[i]);
            }
        }
    }
}

/// Names are in the order of their first difference, a shorter one before what it starts.
pub proof fn law_names_are_in_lexicographic_order(a: Seq<char>, b: Seq<char>)
    ensures
        text_map::before(a, b) <==> exists|k: int|
            #![trigger a.take(k)]
            {
                &&& 0 <= k <= a.len()
                &&& k < b.len()
                &&& a.take(k) == b.take(k)
                &&& k == a.len() || a[k] < b[k]
            },
    decreases a.len(),
{
    if b.len() > 0 && a.len() > 0 && a[0] == b[0] {
        let x = a.skip(1);
        let y = b.skip(1);
        law_names_are_in_lexicographic_order(x, y);
        if text_map::before(x, y) {
            let k = choose|k: int|
                #![trigger x.take(k)]
                0 <= k <= x.len() && k < y.len() && x.take(k) == y.take(k) && (k == x.len() || x[k]
                    < y[k]);
            assert forall|i: int| 0 <= i < k + 1 implies a[i] == b[i] by {
                if i > 0 {
                    assert(x.take(k)[i - 1] == y.take(k)[i - 1]);
                }
            }
            assert(a.take(k + 1) =~= b.take(k + 1));
        }
        if exists|k: int|
            #![trigger a.take(k)]
            0 <= k <= a.len() && k < b.len() && a.take(k) == b.take(k) && (k == a.len() || a[k]
                < b[k]) {
            let k = choose|k: int|
                #![trigger a.take(k)]
                0 <= k <= a.len() && k < b.len() && a.take(k) == b.take(k) && (k == a.len() || a[k]
                    < b[k]);
            assert(k > 0);
            assert forall|i: int| 0 <= i < k - 1 implies x[i] == y[i] by {
                assert(a.take(k)[i + 1] == b.take(k)[i + 1]);
            }
            assert(x.take(k - 1) =~= y.take(k - 1));
        }
    } else if b.len() > 0 {
        assert(a.take(0) =~= b.take(0));
        if exists|k: int|
            #![trigger a.take(k)]
            0 <= k <= a.len() && k < b.len() && a.take(k) == b.take(k) && (k == a.len() || a[k]
                < b[k]) {
            let k = choose|k: int|
                #![trigger a.take(k)]
                0 <= k <= a.len() && k < b.len() && a.take(k) == b.take(k) && (k == a.len() || a[k]
                    < b[k]);
            if k > 0 {
                assert(a.take(k)[0] == b.take(k)[0]);
            }
        }
    }
}

/// A map holds under each key the value that its listing has there, and no other key.
pub proof fn law_maps_hold_what_they_list<V>(pairs: Seq<(Seq<char>, V)>, key: Seq<char>)
    requires
        text_map::ascending(pairs),
    ensures
        text_map::listed(pairs).contains_key(key) <==> exists|i: int|
            0 <= i < pairs.len() && (#[trigger] pairs[i]).0 == key,
        forall|i: int|
            0 <= i < pairs.len() ==> text_map::listed(pairs)[(#[trigger] pairs[i]).0]
                == pairs[i].1,
{
    text_map::lemma_listed_keys(pairs, key);
    assert forall|i: int| 0 <= i < pairs.len() implies text_map::listed(pairs)[(
    #[trigger] pairs[i]).0] == pairs[i].1 by {
        text_map::lemma_listed_at(pairs, i);
    }
}

/// A value means what it spells: an array its items one for one, an object the last member
/// under each of its keys.
pub proof fn law_values_mean_what_they_spell(
    flag: bool,
    number: serde_json::Number,
    text: String,
    items: Vec<Json>,
    members: Vec<(String, Json)>,
    key: Seq<char>,
)
    ensures
        json::tree(Json::Null) is Null,
        json::tree(Json::Bool(flag)) == JsonTree::Bool(flag),
        json::tree(Json::Number(number)) == JsonTree::Number(number),
        json::tree(Json::Text(text)) == JsonTree::Text(text@),
        json::tree(Json::Array(items)) matches JsonTree::Array(trees) && trees.len()
            == items@.len() && forall|i: int|
            0 <= i < items@.len() ==> trees[i] == json::tree(#[trigger] items@[i]),
        json::tree(Json::Object(members)) matches JsonTree::Object(held) && (held.contains_key(key)
            <==> exists|i: int| 0 <= i < members@.len() && (#[trigger] members@[i]).0@ == key)
            && forall|i: int|
            0 <= i < members@.len() && (#[trigger] members@[i]).0@ == key && (forall|j: int|
                i < j < members@.len() ==> (#[trigger] members@[j]).0@ != key) ==> held[key]
                == json::tree(members@[i].1),
{
    json::lemma_trees(items@);
    json::lemma_member_keys(members@, key);
    lemma_last_member(members@, key);
}

/// The last member under a key is the one that counts.
proof fn lemma_last_member(members: Seq<(String, Json)>, key: Seq<char>)
    ensures
        forall|i: int|
            0 <= i < members.len() && (#[trigger] members[i]).0@ == key && (forall|j: int|
                i < j < members.len() ==> (#[trigger] members[j]).0@ != key) ==> json::member_trees(
                members,
            )[key] == json::tree(members[i].1),
    decreases members.len(),
{
    if members.len() > 0 {
        let front = members.drop_last();
        let last = members.len() - 1;
        lemma_last_member(front, key);
        assert forall|i: int|
            0 <= i < members.len() && (#[trigger] members[i]).0@ == key && (forall|j: int|
                i < j < members.len() ==> (
                #[trigger] members[j]).0@ != key) implies json::member_trees(members)[key]
            == json::tree(members[i].1) by {
            if i < last {
                assert(front[i] == members[i]);
                assert(members[last].0@ != key);
                assert forall|j: int| i < j < front.len() implies (#[trigger] front[j]).0@
                    != key by {
                    assert(front[j] == members[j]);
                }
            }
        }
    }
}

/// What an object holds under a key is its member there, and nothing else has members.
pub proof fn law_members_are_those_of_objects(tree: JsonTree, key: Seq<char>, other: Seq<char>)
    ensures
        match tree {
            JsonTree::Object(members) => {
                &&& tree.member(key) is Some <==> members.contains_key(key)
                &&& members.contains_key(key) ==> tree.member(key) == Some(members[key])
                &&& members.contains_key(key) ==> tree.member_or(key, other) == Some(members[key])
                &&& !members.contains_key(key) && members.contains_key(other) ==> tree.member_or(
                    key,
                    other,
                ) == Some(members[other])
                &&& !members.contains_key(key) && !members.contains_key(other) ==> tree.member_or(
                    key,
                    other,
                ) is None
            },
            _ => tree.member(key) is None && tree.member_or(key, other) is None,
        },
        match tree {
            JsonTree::Text(text) => tree.text() == Some(text),
            _ => tree.text() is None,
        },
        json::text_of(None) is None,
        json::text_of(Some(tree)) == tree.text(),
{
}

/// A message that is too long is refused by the name of the bound, at its first byte too many.
pub proof fn law_long_messages_are_refused_by_name(length: nat, bytes: Seq<u8>, limit: nat)
    requires
        length <= limit,
    ensures
        frames::metered(length, bytes, limit) matches Err(error) ==> error == (ErrorView::Bound {
            name: "max_frame_bytes"@,
            actual: limit + 1,
            limit,
        }),
        frames::metered(length, bytes, limit) matches Ok(after) ==> after <= limit,
    decreases bytes.len(),
{
    if bytes.len() > 0 {
        law_long_messages_are_refused_by_name(length, bytes.drop_last(), limit);
    }
}

/// A byte lengthens a message by one, and a newline starts the next.
pub proof fn law_bytes_are_counted(length: nat, byte: u8, limit: nat)
    requires
        length <= limit,
    ensures
        byte == 0x0a ==> frames::metered(length, seq![byte], limit) == Ok::<_, ErrorView>(0nat),
        byte != 0x0a && length < limit ==> frames::metered(length, seq![byte], limit) == Ok::<
            _,
            ErrorView,
        >(length + 1),
        byte != 0x0a && length == limit ==> frames::metered(length, seq![byte], limit) is Err,
{
    let one = seq![byte];
    assert(one.drop_last() =~= Seq::<u8>::empty());
    assert(frames::metered(length, one.drop_last(), limit) == Ok::<_, ErrorView>(length));
    assert(one.last() == byte);
}

/// The limits where none are given.
pub proof fn law_default_limits()
    ensures
        ({
            let limits = limits::default_limits();
            &&& limits.max_frame_bytes == 1024 * 1024
            &&& limits.max_tools == 512
            &&& limits.max_tool_descriptor_bytes == 64 * 1024
            &&& limits.max_arguments_bytes == 64 * 1024
            &&& limits.max_result_bytes == 256 * 1024
            &&& limits.max_pages == 128
            &&& limits.request_timeout.secs == 30
            &&& limits.request_timeout.nanos == 0
        }),
{
}

/// White space is what Unicode counts as such, by its code points.
pub proof fn law_white_space_by_code_points(c: char)
    ensures
        ({
            let code = c as int;
            text::white_space(c) <==> {
                ||| 9 <= code <= 13
                ||| code == 32 || code == 133 || code == 160
                ||| code == 5760
                ||| 8192 <= code <= 8202
                ||| code == 8232 || code == 8233
                ||| code == 8239 || code == 8287
                ||| code == 12288
            }
        }),
{
}

/// The classes part the characters: white space from the rest, one character from the others,
/// two from the others.
pub proof fn law_classes_part_the_characters(c: char, d: char, e: char)
    ensures
        Class::Space.holds(c) <==> text::white_space(c),
        Class::Space.holds(c) <==> !Class::Solid.holds(c),
        Class::Only(d).holds(c) <==> c == d,
        Class::Except(d).holds(c) <==> c != d,
        Class::Neither(d, e).holds(c) <==> Class::Except(d).holds(c) && Class::Except(e).holds(c),
{
}

/// The characters counted at the start all belong to the class, and the one after them does
/// not.
pub proof fn law_leading_characters_are_counted(s: Seq<char>, class: Class)
    ensures
        0 <= text::leading(s, class) <= s.len(),
        forall|i: int| 0 <= i < text::leading(s, class) ==> class.holds(#[trigger] s[i]),
        text::leading(s, class) < s.len() ==> !class.holds(s[text::leading(s, class)]),
    decreases s.len(),
{
    if s.len() > 0 && class.holds(s[0]) {
        let rest = s.skip(1);
        law_leading_characters_are_counted(rest, class);
        assert forall|i: int| 0 <= i < text::leading(s, class) implies class.holds(
            #[trigger] s[i],
        ) by {
            if i > 0 {
                assert(rest[i - 1] == s[i]);
            }
        }
        if text::leading(s, class) < s.len() {
            assert(s[text::leading(s, class)] == rest[text::leading(rest, class)]);
        }
    }
}

/// A part stands at a position exactly where each of its characters stands there in turn.
pub proof fn law_parts_stand_character_by_character(s: Seq<char>, part: Seq<char>, i: int)
    requires
        0 <= i,
    ensures
        text::stands_at(s, part, i) <==> i + part.len() <= s.len() && forall|k: int|
            0 <= k < part.len() ==> s[i + k] == #[trigger] part[k],
{
    if i + part.len() <= s.len() {
        let there = s.subrange(i, i + part.len());
        if there == part {
            assert forall|k: int| 0 <= k < part.len() implies s[i + k] == #[trigger] part[k] by {
                assert(there[k] == s[i + k]);
            }
        }
        if forall|k: int| 0 <= k < part.len() ==> s[i + k] == #[trigger] part[k] {
            assert(there =~= part);
        }
    }
}

/// The items of an array mean what they mean each by itself, in their order.
pub proof fn law_items_mean_what_they_spell(items: Seq<Json>)
    ensures
        json::trees(items).len() == items.len(),
        forall|i: int|
            0 <= i < items.len() ==> (#[trigger] json::trees(items)[i]) == json::tree(items[i]),
    decreases items.len(),
{
    if items.len() > 0 {
        law_items_mean_what_they_spell(items.drop_last());
    }
}

} // verus!
