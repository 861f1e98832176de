//! Authorization challenges.

use vstd::prelude::*;
use vstd::string::*;

use crate::error;
use crate::text;
use crate::text::{characters, same_ignoring_case, scan, scan_back, trim_bounds, Class};

verus! {

/// The last of the words that white space parts a text into.
pub open spec fn last_word(s: Seq<char>) -> Seq<char> {
    let shown = text::trimmed(s, Class::Space);
    shown.skip(shown.len() - text::trailing(shown, Class::Solid))
}

/// The scope that one parameter of a challenge names. Its name is the last word before the
/// equals sign: the first parameter has the scheme of its challenge before it.
pub open spec fn parameter_scope(parameter: Seq<char>) -> Option<Seq<char>> {
    let parameter = text::trimmed(parameter, Class::Space);
    let n = text::position(parameter, '=');
    let name = last_word(parameter.take(n));
    let value = text::trimmed(parameter.skip(n + 1), Class::Space);
    if n < parameter.len() && text::lowered(name) == text::lowered("scope"@) {
        Some(text::trimmed(value, Class::Only('"')))
    } else {
        None
    }
}

/// Where the parameter ends that is read from position `i` on: at the next comma that no
/// quotes enclose, or at the end.
pub open spec fn parameter_end(challenge: Seq<char>, i: int, quoted: bool, escaped: bool) -> int
    decreases challenge.len() - i,
{
    if i >= challenge.len() {
        challenge.len() as int
    } else if !quoted && challenge[i] == ',' {
        i
    } else {
        parameter_end(
            challenge,
            i + 1,
            if quoted {
                escaped || challenge[i] != '"'
            } else {
                challenge[i] == '"'
            },
            quoted && !escaped && challenge[i] == '\\',
        )
    }
}

/// The scope of the first parameter from position `from` on that names one.
pub open spec fn scope_from(challenge: Seq<char>, from: int) -> Option<Seq<char>>
    decreases challenge.len() - from,
{
    let to = parameter_end(challenge, from, false, false);
    match parameter_scope(challenge.subrange(from, to)) {
        Some(scope) => Some(scope),
        None => if from <= to < challenge.len() {
            scope_from(challenge, to + 1)
        } else {
            None
        },
    }
}

/// The scope that a challenge asks for.
pub open spec fn scope_asked(challenge: Seq<char>) -> Option<Seq<char>> {
    scope_from(challenge, 0)
}

/// The scope that the parameter between two positions names.
fn read_parameter(challenge: &str, letters: &Vec<char>, from: usize, to: usize) -> (r: Option<
    String,
>)
    requires
        letters@ == challenge@,
        from <= to <= letters@.len(),
    ensures
        error::optional_text(r) == parameter_scope(challenge@.subrange(from as int, to as int)),
{
    let (start, end) = trim_bounds(letters, from, to, Class::Space);
    let equals: usize = scan(letters, start, end, Class::Except('='));
    let ghost parameter = letters@.subrange(start as int, end as int);
    if equals == end {
        return None;
    }
    assert(parameter.take(equals - start) =~= letters@.subrange(start as int, equals as int));
    assert(parameter.skip(equals - start + 1) =~= letters@.subrange(equals + 1, end as int));
    let (name_start, name_end) = trim_bounds(letters, start, equals, Class::Space);
    let word_start: usize = scan_back(letters, name_start, name_end, Class::Solid);
    assert(letters@.subrange(word_start as int, name_end as int) =~= last_word(
        letters@.subrange(start as int, equals as int),
    ));
    if !same_ignoring_case(letters, word_start, name_end, "scope") {
        return None;
    }
    let (value_start, value_end) = trim_bounds(letters, equals + 1, end, Class::Space);
    let (scope_start, scope_end) = trim_bounds(letters, value_start, value_end, Class::Only('"'));
    Some(challenge.substring_char(scope_start, scope_end).to_owned())
}

/// The scope that a challenge asks for, where there is a challenge.
pub fn challenge_scope(challenge: Option<&str>) -> (r: Option<String>)
    ensures
        error::optional_text(r) == match challenge {
            Some(challenge) => scope_asked(challenge@),
            None => None,
        },
{
    match challenge {
        Some(challenge) => find_scope(challenge),
        None => None,
    }
}

/// Finds where the parameter ends that is read from position `from` on.
fn find_end(letters: &Vec<char>, from: usize) -> (r: usize)
    requires
        from <= letters@.len(),
    ensures
        from <= r <= letters@.len(),
        r == parameter_end(letters@, from as int, false, false),
{
    let mut quoted = false;
    let mut escaped = false;
    let mut i: usize = from;
    while i < letters.len()
        invariant
            from <= i <= letters@.len(),
            parameter_end(letters@, from as int, false, false) == parameter_end(
                letters@,
                i as int,
                quoted,
                escaped,
            ),
        decreases letters@.len() - i,
    {
        let c = letters[i];
        if !quoted && c == ',' {
            return i;
        }
        let within = quoted;
        quoted = if within {
            escaped || c != '"'
        } else {
            c == '"'
        };
        escaped = within && !escaped && c == '\\';
        i = i + 1;
    }
    i
}

/// The scope that a challenge asks for.
fn find_scope(challenge: &str) -> (r: Option<String>)
    ensures
        error::optional_text(r) == scope_asked(challenge@),
{
    let letters = characters(challenge);
    let mut from: usize = 0;
    loop
        invariant
            from <= letters@.len(),
            letters@ == challenge@,
            scope_asked(challenge@) == scope_from(challenge@, from as int),
        decreases letters@.len() - from,
    {
        let to: usize = find_end(&letters, from);
        let found = read_parameter(challenge, &letters, from, to);
        if found.is_some() {
            return found;
        }
        if to == letters.len() {
            return None;
        }
        from = to + 1;
    }
}

/// A run without quotes, and without commas outside them, ends no parameter.
pub proof fn lemma_plain_run(challenge: Seq<char>, i: int, n: int, quoted: bool)
    requires
        0 <= i <= n <= challenge.len(),
        forall|k: int|
            i <= k < n ==> (#[trigger] challenge[k]) != '"' && (quoted ==> challenge[k] != '\\')
                && (!quoted ==> challenge[k] != ','),
    ensures
        parameter_end(challenge, i, quoted, false) == parameter_end(challenge, n, quoted, false),
    decreases n - i,
{
    if i < n {
        assert(challenge[i] != '"');
        lemma_plain_run(challenge, i + 1, n, quoted);
    }
}

/// What quotes enclose ends no parameter.
pub proof fn lemma_quoted_run(challenge: Seq<char>, i: int, n: int)
    requires
        0 <= i < n < challenge.len(),
        challenge[i] == '"',
        challenge[n] == '"',
        forall|k: int|
            i < k < n ==> (#[trigger] challenge[k]) != '"' && challenge[k] != '\\',
    ensures
        parameter_end(challenge, i, false, false) == parameter_end(challenge, n + 1, false, false),
{
    assert(parameter_end(challenge, i, false, false) == parameter_end(challenge, i + 1, true, false));
    lemma_plain_run(challenge, i + 1, n, true);
    assert(parameter_end(challenge, n, true, false) == parameter_end(challenge, n + 1, false, false));
}

/// A challenge without a comma is one parameter.
pub proof fn lemma_one_parameter(challenge: Seq<char>, i: int, quoted: bool, escaped: bool)
    requires
        0 <= i,
        forall|k: int| 0 <= k < challenge.len() ==> (#[trigger] challenge[k]) != ',',
    ensures
        parameter_end(challenge, i, quoted, escaped) == challenge.len(),
    decreases challenge.len() - i,
{
    if i < challenge.len() {
        let within = if quoted {
            escaped || challenge[i] != '"'
        } else {
            challenge[i] == '"'
        };
        lemma_one_parameter(challenge, i + 1, within, quoted && !escaped && challenge[i] == '\\');
    }
}

/// Where a parameter ends does not depend on what stands before it.
proof fn lemma_end_from(head: Seq<char>, rest: Seq<char>, i: int, quoted: bool, escaped: bool)
    requires
        0 <= i,
    ensures
        parameter_end(head + rest, head.len() + i, quoted, escaped) == head.len() + parameter_end(
            rest,
            i,
            quoted,
            escaped,
        ),
        i <= rest.len() ==> i <= parameter_end(rest, i, quoted, escaped) <= rest.len(),
    decreases rest.len() - i,
{
    if i < rest.len() {
        let c = rest[i];
        assert((head + rest)[head.len() + i] == c);
        let within = if quoted {
            escaped || c != '"'
        } else {
            c == '"'
        };
        lemma_end_from(head, rest, i + 1, within, quoted && !escaped && c == '\\');
    }
}

/// What is found from a position on does not depend on what stands before it.
pub proof fn lemma_scope_from(head: Seq<char>, rest: Seq<char>, i: int)
    requires
        0 <= i <= rest.len(),
    ensures
        scope_from(head + rest, head.len() + i) == scope_from(rest, i),
    decreases rest.len() - i,
{
    lemma_end_from(head, rest, i, false, false);
    let to = parameter_end(rest, i, false, false);
    assert((head + rest).subrange(head.len() + i, head.len() + to) =~= rest.subrange(i, to));
    if to < rest.len() {
        lemma_scope_from(head, rest, to + 1);
    }
}

} // verus!
