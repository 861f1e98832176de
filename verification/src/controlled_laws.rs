//! What the controlled server owes to the messages that it is sent.

use vstd::prelude::*;

use crate::controlled;
use crate::controlled::{HeadLine, Place};
use crate::text;
use crate::text::Class;
use crate::text_laws;

verus! {

/// Braces and brackets nest, strings hide what they enclose, and a backslash in a string hides
/// the character after it.
pub proof fn law_places_nest(place: Place, c: char)
    ensures
        ({
            let next = place.after(c);
            &&& !place.quoted && (c == '{' || c == '[') ==> next.depth == place.depth + 1
                && !next.quoted
            &&& !place.quoted && (c == '}' || c == ']') && place.depth > 0 ==> next.depth
                == place.depth - 1 && !next.quoted
            &&& !place.quoted && c == '"' ==> next.quoted && !next.escaped && next.depth
                == place.depth
            &&& !place.quoted && c != '{' && c != '[' && c != '}' && c != ']' && c != '"' ==> next
                == place
            &&& place.quoted ==> next.depth == place.depth
            &&& place.quoted && !place.escaped && c == '"' ==> !next.quoted
            &&& place.quoted && (place.escaped || c != '"') ==> next.quoted
            &&& place.quoted ==> (next.escaped <==> !place.escaped && c == '\\')
        }),
{
}

/// Of the members that a message itself has under a key, the first counts, and its value is
/// what is written after the colon.
pub proof fn law_first_own_members_count(message: Seq<char>, key: Seq<char>, i: int)
    requires
        controlled::own_key(message, key, i),
        forall|j: int| 0 <= j < i ==> !controlled::own_key(message, key, j),
    ensures
        controlled::own_member(message, key) == controlled::written_value(
            message,
            controlled::solid_from(
                message,
                controlled::solid_from(message, i + key.len()) + 1,
            ),
        ),
{
    assert(controlled::place_at(message, 0) == Place::outset());
    lemma_reached(message, key, 0, i);
}

/// A search that starts before a member reaches it.
proof fn lemma_reached(message: Seq<char>, key: Seq<char>, j: int, i: int)
    requires
        0 <= j <= i,
        controlled::own_key(message, key, i),
        forall|k: int| j <= k < i ==> !controlled::own_key(message, key, k),
    ensures
        controlled::member_start(message, key, j, controlled::place_at(message, j)) == Some(
            controlled::solid_from(
                message,
                controlled::solid_from(message, i + key.len()) + 1,
            ),
        ),
    decreases i - j,
{
    if j < i {
        assert(!controlled::own_key(message, key, j));
        assert(controlled::place_at(message, j + 1) == controlled::place_at(message, j).after(
            message[j],
        ));
        lemma_reached(message, key, j + 1, i);
    }
}

/// A message without an own member under a key has no value there.
pub proof fn law_absent_members_have_no_value(message: Seq<char>, key: Seq<char>)
    requires
        forall|i: int| !controlled::own_key(message, key, i),
    ensures
        controlled::own_member(message, key) is None,
{
    assert(controlled::place_at(message, 0) == Place::outset());
    controlled::lemma_member_start(message, key, 0);
}

/// A bare value goes on to the next comma or brace, without the white space around it.
pub proof fn law_bare_values_are_taken_as_written(before: Seq<char>, value: Seq<char>, rest: Seq<char>)
    requires
        value.len() > 0,
        forall|i: int|
            0 <= i < value.len() ==> (#[trigger] value[i]) != ',' && value[i] != '}' && value[i]
                != '"' && !text::white_space(value[i]),
        rest.len() > 0 ==> rest[0] == ',' || rest[0] == '}',
    ensures
        controlled::written_value(before + value + rest, before.len() as int) == Some(value),
{
    let s = before + value + rest;
    let start = before.len() as int;
    let tail = s.subrange(start, s.len() as int);
    assert(tail =~= value + rest);
    assert(s[start] == value[0]);
    assert forall|i: int| 0 <= i < value.len() implies Class::Neither(',', '}').holds(
        #[trigger] tail[i],
    ) by {
        assert(tail[i] == value[i]);
    }
    if rest.len() > 0 {
        assert(tail[value.len() as int] == rest[0]);
    }
    text::lemma_leading(tail, Class::Neither(',', '}'), value.len() as int);
    assert(tail.take(value.len() as int) =~= value);
    text::lemma_leading(value, Class::Space, 0);
    assert(value.skip(0) =~= value);
    text::lemma_trailing(value, Class::Space, 0);
    assert(value.take(value.len() as int) =~= value);
}

/// A string is taken with its quotes, whatever else it holds.
pub proof fn law_strings_are_taken_with_their_quotes(
    before: Seq<char>,
    value: Seq<char>,
    rest: Seq<char>,
)
    requires
        forall|i: int| 0 <= i < value.len() ==> (#[trigger] value[i]) != '"' && value[i] != '\\',
    ensures
        controlled::written_value(
            before + seq!['"'] + value + seq!['"'] + rest,
            before.len() as int,
        ) == Some(seq!['"'] + value + seq!['"']),
{
    let s = before + seq!['"'] + value + seq!['"'] + rest;
    let start = before.len() as int;
    let end = start + 1 + value.len();
    assert(s[start] == '"');
    assert forall|i: int| start + 1 <= i < end implies (#[trigger] s[i]) != '"' && s[i] != '\\' by {
        assert(s[i] == value[i - start - 1]);
    }
    assert(s[end] == '"');
    lemma_quote_found(s, start + 1, end);
    assert(s.subrange(start, end + 1) =~= seq!['"'] + value + seq!['"']);
}

/// The quote that ends a string is found.
proof fn lemma_quote_found(s: Seq<char>, i: int, end: int)
    requires
        0 <= i <= end < s.len(),
        s[end] == '"',
        forall|k: int| i <= k < end ==> (#[trigger] s[k]) != '"' && s[k] != '\\',
    ensures
        controlled::closing_quote(s, i, false) == Some(end),
    decreases end - i,
{
    if i < end {
        assert(s[i] != '"' && s[i] != '\\');
        lemma_quote_found(s, i + 1, end);
    }
}

/// A request that starts with its identifier is answered under it, whatever follows.
pub proof fn law_requests_are_answered_under_their_identifier(value: Seq<char>, rest: Seq<char>)
    requires
        value.len() > 0,
        forall|i: int|
            0 <= i < value.len() ==> (#[trigger] value[i]) != ',' && value[i] != '}' && value[i]
                != '"' && !text::white_space(value[i]),
        rest.len() > 0 ==> rest[0] == ',' || rest[0] == '}',
    ensures
        controlled::request_id("{\"id\":"@ + value + rest) == Some(value),
{
    reveal_strlit("{\"id\":");
    reveal_strlit("\"id\"");
    let head = "{\"id\":"@;
    let key = "\"id\""@;
    let message = head + value + rest;
    assert(message[0] == '{' && message[1] == '"' && message[2] == 'i' && message[3] == 'd');
    assert(message[4] == '"' && message[5] == ':');
    assert(message[6] == value[0]);
    assert(message.subrange(1, 5) =~= key);
    let after = message.subrange(5, message.len() as int);
    assert(after[0] == ':');
    text::lemma_leading(after, Class::Space, 0);
    let from = message.subrange(6, message.len() as int);
    assert(from[0] == value[0]);
    text::lemma_leading(from, Class::Space, 0);
    reveal_with_fuel(controlled::member_start, 3);
    assert(Place::outset().after('{').own());
    assert(controlled::names_member(message, key, 1));
    law_bare_values_are_taken_as_written(head, value, rest);
}

/// Each of the three methods has its own answer, and every other one the refusal.
pub proof fn law_methods_have_their_own_answers(method: Seq<char>)
    ensures
        controlled::method_tail(Some("\"initialize\""@)) == controlled::INITIALIZED@,
        controlled::method_tail(Some("\"tools/list\""@)) == controlled::LISTED@,
        controlled::method_tail(Some("\"tools/call\""@)) == controlled::CALLED@,
        controlled::method_tail(None) == controlled::REFUSED@,
        method != "\"initialize\""@ && method != "\"tools/list\""@ && method != "\"tools/call\""@
            ==> controlled::method_tail(Some(method)) == controlled::REFUSED@,
{
    reveal_strlit("\"initialize\"");
    reveal_strlit("\"tools/list\"");
    reveal_strlit("\"tools/call\"");
    assert("\"initialize\""@[1] == 'i');
    assert("\"tools/list\""@[1] == 't' && "\"tools/list\""@[7] == 'l');
    assert("\"tools/call\""@[1] == 't' && "\"tools/call\""@[7] == 'c');
}

/// Over HTTP a message is answered where it is posted, a stream is not offered, the end of a
/// session is taken note of, and any other method is unknown.
pub proof fn law_http_methods_are_told_apart(method: Seq<char>, body: Seq<char>)
    ensures
        controlled::http_answer("GET"@, body) == Some(("405 Method Not Allowed"@, ""@)),
        controlled::http_answer("DELETE"@, body) == Some(("200 OK"@, ""@)),
        controlled::answer(body) is Some ==> controlled::http_answer("POST"@, body) == Some(
            ("200 OK"@, controlled::answer(body)->0),
        ),
        controlled::answer(body) is None ==> controlled::http_answer("POST"@, body) == Some(
            ("202 Accepted"@, ""@),
        ),
        method != "GET"@ && method != "DELETE"@ && method != "POST"@ ==> controlled::http_answer(
            method,
            body,
        ) is None,
{
    reveal_strlit("POST");
    reveal_strlit("GET");
    reveal_strlit("DELETE");
    assert("POST"@.len() != "GET"@.len());
    assert("POST"@.len() != "DELETE"@.len());
    assert("GET"@.len() != "DELETE"@.len());
}

/// Whether a character parts the words of a request line.
pub open spec fn parts_words(c: char) -> bool {
    c == ' ' || c == '\t' || c == '\n' || c == '\u{c}' || c == '\r'
}

/// The method of a request line is its first word.
pub proof fn law_methods_are_first_words(method: Seq<char>, rest: Seq<char>)
    requires
        method.len() > 0,
        forall|i: int| 0 <= i < method.len() ==> !parts_words(#[trigger] method[i]),
        rest.len() > 0 ==> parts_words(rest[0]),
    ensures
        controlled::first_word(method + rest) == Some(method),
{
    let line = method + rest;
    assert(line[0] == method[0]);
    assert(line.skip(0) =~= line);
    lemma_run(line, method.len() as int);
    assert(line.take(method.len() as int) =~= method);
}

/// A run of other characters ends at the first that parts words.
proof fn lemma_run(s: Seq<char>, n: int)
    requires
        0 <= n <= s.len(),
        forall|i: int| 0 <= i < n ==> !parts_words(#[trigger] s[i]),
        n < s.len() ==> parts_words(s[n]),
    ensures
        controlled::ascii_run(s, false) == n,
    decreases n,
{
    if n > 0 {
        assert(!parts_words(s[0]));
        let rest = s.skip(1);
        assert forall|i: int| 0 <= i < n - 1 implies !parts_words(#[trigger] rest[i]) by {
            assert(rest[i] == s[i + 1]);
        }
        lemma_run(rest, n - 1);
    }
}

/// A header that tells the length of the body tells it, whatever its case, and a head is over
/// at its empty line.
pub proof fn law_told_lengths_are_read(name: Seq<char>, length: usize)
    requires
        text::lowered(name) == "content-length"@,
    ensures
        controlled::head_line(name + seq![':', ' '] + text::decimal(length as nat) + "\r\n"@)
            == HeadLine::ContentLength(length),
        controlled::head_line("\r\n"@) is End,
        controlled::head_line(Seq::empty()) is End,
{
    reveal_strlit("content-length");
    reveal_strlit("\r\n");
    let digits = text::decimal(length as nat);
    let shown = name + seq![':', ' '] + digits;
    let line = shown + "\r\n"@;
    assert(line =~= name + seq![':', ' '] + digits + "\r\n"@);
    assert(text::lowered("content-length"@) =~= "content-length"@);
    assert(name.len() == 14);
    assert(line.len() != "\r\n"@.len());
    lemma_digits(length as nat);
    assert(line[line.len() - 1] == '\n' && line[line.len() - 2] == '\r');
    assert(line[line.len() - 3] == digits.last());
    text::lemma_trailing(line, Class::Space, 2);
    assert(line.take(line.len() - 2) =~= shown);
    assert forall|i: int| 0 <= i < 14 implies Class::Except(':').holds(#[trigger] shown[i]) by {
        assert(shown[i] == name[i]);
        assert(text::lowered(name)[i] == "content-length"@[i]);
    }
    assert(shown[14] == ':');
    text::lemma_leading(shown, Class::Except(':'), 14);
    assert(shown.take(14) =~= name);
    let value = shown.skip(15);
    assert(value =~= seq![' '] + digits);
    assert(value[1] == digits[0]);
    text::lemma_leading(value, Class::Space, 1);
    assert(value.skip(1) =~= digits);
    text::lemma_trailing(digits, Class::Space, 0);
    assert(digits.take(digits.len() as int) =~= digits);
    text_laws::law_sizes_are_read_back(length);
}

/// Digits are no white space.
proof fn lemma_digits(n: nat)
    ensures
        text::decimal(n).len() > 0,
        forall|i: int|
            0 <= i < text::decimal(n).len() ==> '0' <= #[trigger] text::decimal(n)[i] <= '9',
    decreases n,
{
    text_laws::law_numbers_are_written_by_their_digits(n);
    let digits = text::decimal(n);
    if n >= 10 {
        lemma_digits(n / 10);
    }
    assert forall|i: int| 0 <= i < digits.len() implies '0' <= #[trigger] digits[i] <= '9' by {
        if i < digits.len() - 1 {
            assert(digits.drop_last()[i] == digits[i]);
        }
    }
}

/// What is quoted, or stands deeper or further out, is no member of the message itself.
pub proof fn law_own_members_stand_one_deep(place: Place)
    ensures
        place.own() <==> place.depth == 1 && !place.quoted,
{
}

/// A line of nothing but white space has no first word.
pub proof fn law_blank_lines_have_no_word(line: Seq<char>)
    requires
        forall|i: int| 0 <= i < line.len() ==> controlled::ascii_space(#[trigger] line[i]),
    ensures
        controlled::first_word(line) is None,
{
    lemma_blank_run(line);
}

/// A run of white space ends where the text does.
proof fn lemma_blank_run(line: Seq<char>)
    requires
        forall|i: int| 0 <= i < line.len() ==> controlled::ascii_space(#[trigger] line[i]),
    ensures
        controlled::ascii_run(line, true) == line.len(),
    decreases line.len(),
{
    if line.len() > 0 {
        let rest = line.skip(1);
        assert forall|i: int| 0 <= i < rest.len() implies controlled::ascii_space(
            #[trigger] rest[i],
        ) by {
            assert(rest[i] == line[i + 1]);
        }
        lemma_blank_run(rest);
    }
}

} // verus!
