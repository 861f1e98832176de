//! Text primitives over sequences of characters.
//!
//! Parsers in this crate read text as a sequence of Unicode scalar values and
//! cut it by position, so every result is a stated part of its input.

use vstd::prelude::*;
use vstd::string::*;

verus! {

/// The Unicode `White_Space` property.
pub open spec fn white_space(c: char) -> bool {
    ||| '\t' <= c <= '\r'
    ||| c == ' '
    ||| c == '\u{85}'
    ||| c == '\u{a0}'
    ||| c == '\u{1680}'
    ||| '\u{2000}' <= c <= '\u{200a}'
    ||| c == '\u{2028}'
    ||| c == '\u{2029}'
    ||| c == '\u{202f}'
    ||| c == '\u{205f}'
    ||| c == '\u{3000}'
}

/// A set of characters that a scan accepts.
#[derive(Clone, Copy)]
pub enum Class {
    /// White space.
    Space,
    /// Anything but white space.
    Solid,
    /// One character.
    Only(char),
    /// Anything but one character.
    Except(char),
    /// Anything but two characters.
    Neither(char, char),
}

impl Class {
    /// Membership.
    pub open spec fn holds(self, c: char) -> bool {
        match self {
            Class::Space => white_space(c),
            Class::Solid => !white_space(c),
            Class::Only(d) => c == d,
            Class::Except(d) => c != d,
            Class::Neither(d, e) => c != d && c != e,
        }
    }

    /// Decides membership.
    pub fn contains(self, c: char) -> (r: bool)
        ensures
            r == self.holds(c),
    {
        match self {
            Class::Space => is_white_space(c),
            Class::Solid => !is_white_space(c),
            Class::Only(d) => c == d,
            Class::Except(d) => c != d,
            Class::Neither(d, e) => c != d && c != e,
        }
    }
}

/// Decides the Unicode `White_Space` property.
pub fn is_white_space(c: char) -> (r: bool)
    ensures
        r == white_space(c),
{
    ('\t' <= c && c <= '\r') || c == ' ' || c == '\u{85}' || c == '\u{a0}' || c == '\u{1680}' || (
    '\u{2000}' <= c && c <= '\u{200a}') || c == '\u{2028}' || c == '\u{2029}' || c == '\u{202f}'
        || c == '\u{205f}' || c == '\u{3000}'
}

/// How many leading characters of `s` belong to `class`.
pub open spec fn leading(s: Seq<char>, class: Class) -> int
    decreases s.len(),
{
    if s.len() > 0 && class.holds(s[0]) {
        1 + leading(s.skip(1), class)
    } else {
        0
    }
}

/// How many trailing characters of `s` belong to `class`.
pub open spec fn trailing(s: Seq<char>, class: Class) -> int
    decreases s.len(),
{
    if s.len() > 0 && class.holds(s.last()) {
        1 + trailing(s.drop_last(), class)
    } else {
        0
    }
}

/// A count of leading characters is the one that ends at a stranger or at the end.
pub proof fn lemma_leading(s: Seq<char>, class: Class, n: int)
    requires
        0 <= n <= s.len(),
        forall|i: int| 0 <= i < n ==> class.holds(#[trigger] s[i]),
        n < s.len() ==> !class.holds(s[n]),
    ensures
        leading(s, class) == n,
    decreases s.len(),
{
    if n > 0 {
        assert forall|i: int| 0 <= i < n - 1 implies class.holds(#[trigger] s.skip(1)[i]) by {
            assert(s.skip(1)[i] == s[i + 1]);
        }
        lemma_leading(s.skip(1), class, n - 1);
    }
}

/// Leading characters are members, up to a stranger or the end.
pub proof fn lemma_leading_bounds(s: Seq<char>, class: Class)
    ensures
        0 <= leading(s, class) <= s.len(),
        forall|i: int| 0 <= i < leading(s, class) ==> class.holds(#[trigger] s[i]),
        leading(s, class) < s.len() ==> !class.holds(s[leading(s, class)]),
    decreases s.len(),
{
    if s.len() > 0 && class.holds(s[0]) {
        lemma_leading_bounds(s.skip(1), class);
        assert forall|i: int| 0 <= i < leading(s, class) implies class.holds(#[trigger] s[i]) by {
            if i > 0 {
                assert(s.skip(1)[i - 1] == s[i]);
            }
        }
    }
}

/// A count of trailing characters is the one that starts after a stranger or at the start.
pub proof fn lemma_trailing(s: Seq<char>, class: Class, n: int)
    requires
        0 <= n <= s.len(),
        forall|i: int| s.len() - n <= i < s.len() ==> class.holds(#[trigger] s[i]),
        n < s.len() ==> !class.holds(s[s.len() - n - 1]),
    ensures
        trailing(s, class) == n,
    decreases s.len(),
{
    if n > 0 {
        lemma_trailing(s.drop_last(), class, n - 1);
    }
}

/// `s` without its leading members of `class`.
pub open spec fn trimmed_start(s: Seq<char>, class: Class) -> Seq<char> {
    s.skip(leading(s, class))
}

/// `s` without its leading and trailing members of `class`.
pub open spec fn trimmed(s: Seq<char>, class: Class) -> Seq<char> {
    let tail = trimmed_start(s, class);
    tail.take(tail.len() - trailing(tail, class))
}

/// The position of the first `c` in `s`, or the length of `s`.
pub open spec fn position(s: Seq<char>, c: char) -> int {
    leading(s, Class::Except(c))
}

/// The characters of a string.
pub fn characters(s: &str) -> (r: Vec<char>)
    ensures
        r@ == s@,
{
    let mut out: Vec<char> = Vec::new();
    for c in it: s.chars()
        invariant
            it.seq() == s@,
            out@ == s@.take(it.index() as int),
    {
        out.push(c);
        assert(s@.take(it.index() + 1) =~= s@.take(it.index() as int).push(c));
    }
    assert(s@.take(s@.len() as int) =~= s@);
    out
}

/// Where the run of `class` that starts at `from` ends, at `to` at the latest.
pub fn scan(s: &Vec<char>, from: usize, to: usize, class: Class) -> (r: usize)
    requires
        from <= to <= s@.len(),
    ensures
        from <= r <= to,
        r == from + leading(s@.subrange(from as int, to as int), class),
{
    let ghost part = s@.subrange(from as int, to as int);
    let mut i: usize = from;
    while i < to && class.contains(s[i])
        invariant
            from <= i <= to <= s@.len(),
            part == s@.subrange(from as int, to as int),
            forall|k: int| 0 <= k < i - from ==> class.holds(#[trigger] part[k]),
        decreases to - i,
    {
        assert(part[i - from] == s@[i as int]);
        i = i + 1;
    }
    proof {
        if i < to {
            assert(part[i - from] == s@[i as int]);
        }
        lemma_leading(part, class, i - from);
    }
    i
}

/// Where the run of `class` that ends at `to` starts, at `from` at the earliest.
pub fn scan_back(s: &Vec<char>, from: usize, to: usize, class: Class) -> (r: usize)
    requires
        from <= to <= s@.len(),
    ensures
        from <= r <= to,
        r == to - trailing(s@.subrange(from as int, to as int), class),
{
    let ghost part = s@.subrange(from as int, to as int);
    let mut i: usize = to;
    while i > from && class.contains(s[i - 1])
        invariant
            from <= i <= to <= s@.len(),
            part == s@.subrange(from as int, to as int),
            forall|k: int| i - from <= k < part.len() ==> class.holds(#[trigger] part[k]),
        decreases i,
    {
        assert(part[i - 1 - from] == s@[i - 1]);
        i = i - 1;
    }
    proof {
        if i > from {
            assert(part[i - 1 - from] == s@[i - 1]);
        }
        lemma_trailing(part, class, to - i);
    }
    i
}

/// The bounds of a part of `s` once members of `class` are cut from both its ends.
pub fn trim_bounds(s: &Vec<char>, from: usize, to: usize, class: Class) -> (r: (usize, usize))
    requires
        from <= to <= s@.len(),
    ensures
        from <= r.0 <= r.1 <= to,
        s@.subrange(r.0 as int, r.1 as int) == trimmed(s@.subrange(from as int, to as int), class),
{
    let start: usize = scan(s, from, to, class);
    let end: usize = scan_back(s, start, to, class);
    proof {
        let part = s@.subrange(from as int, to as int);
        assert(trimmed_start(part, class) =~= s@.subrange(start as int, to as int));
        assert(trimmed(part, class) =~= s@.subrange(start as int, end as int));
    }
    (start, end)
}

/// Whether two strings hold the same characters.
pub fn same(a: &str, b: &str) -> (r: bool)
    ensures
        r == (a@ == b@),
{
    a.to_owned() == b.to_owned()
}

/// The lowercase form of an ASCII letter, and any other character itself.
pub open spec fn lowercase(c: char) -> char {
    if 'A' <= c <= 'Z' {
        ((c as u32) + 32) as char
    } else {
        c
    }
}

/// Characters with ASCII letters in lower case.
pub open spec fn lowered(s: Seq<char>) -> Seq<char> {
    Seq::new(s.len(), |i: int| lowercase(s[i]))
}

/// The lowercase form of an ASCII letter, and any other character itself.
pub fn to_lowercase(c: char) -> (r: char)
    ensures
        r == lowercase(c),
{
    if 'A' <= c && c <= 'Z' {
        ((c as u8) + 32) as char
    } else {
        c
    }
}

/// Whether two parts of texts are the same but for the case of ASCII letters.
pub fn same_ignoring_case(a: &Vec<char>, from: usize, to: usize, b: &str) -> (r: bool)
    requires
        from <= to <= a@.len(),
    ensures
        r == (lowered(a@.subrange(from as int, to as int)) == lowered(b@)),
{
    let other = characters(b);
    let ghost part = a@.subrange(from as int, to as int);
    if to - from != other.len() {
        assert(lowered(part).len() != lowered(b@).len());
        return false;
    }
    let mut i: usize = 0;
    while i < other.len()
        invariant
            i <= other@.len(),
            to - from == other@.len(),
            to <= a@.len(),
            other@ == b@,
            part == a@.subrange(from as int, to as int),
            forall|j: int| 0 <= j < i ==> #[trigger] lowered(part)[j] == lowered(b@)[j],
        decreases other@.len() - i,
    {
        if to_lowercase(a[from + i]) != to_lowercase(other[i]) {
            assert(part[i as int] == a@[from + i]);
            assert(lowered(part)[i as int] != lowered(b@)[i as int]);
            return false;
        }
        i = i + 1;
    }
    assert(lowered(part) =~= lowered(b@));
    true
}

/// One digit, in base sixteen or less.
pub open spec fn digit(d: int) -> char {
    "0123456789abcdef"@[d]
}

/// A number in base ten.
pub open spec fn decimal(n: nat) -> Seq<char>
    decreases n,
{
    if n < 10 {
        seq![digit(n as int)]
    } else {
        decimal(n / 10).push(digit((n % 10) as int))
    }
}

/// Bytes in base sixteen, two lowercase digits each.
pub open spec fn hexadecimal(bytes: Seq<u8>) -> Seq<char>
    decreases bytes.len(),
{
    if bytes.len() == 0 {
        Seq::empty()
    } else {
        hexadecimal(bytes.drop_last()).push(digit(bytes.last() as int / 16)).push(
            digit(bytes.last() as int % 16),
        )
    }
}

/// Appends one digit.
fn push_digit(out: &mut String, d: usize)
    requires
        d < 16,
    ensures
        final(out)@ == old(out)@.push(digit(d as int)),
{
    let digits = "0123456789abcdef";
    proof {
        reveal_strlit("0123456789abcdef");
    }
    out.append(digits.substring_char(d, d + 1));
    assert(digits@.subrange(d as int, d + 1) =~= seq![digit(d as int)]);
    assert(out@ =~= old(out)@.push(digit(d as int)));
}

/// Writes a number in base ten.
pub fn decimal_text(n: usize) -> (r: String)
    ensures
        r@ == decimal(n as nat),
    decreases n,
{
    let mut out = if n < 10 {
        String::new()
    } else {
        decimal_text(n / 10)
    };
    push_digit(&mut out, n % 10);
    assert(n < 10 ==> out@ =~= seq![digit(n as int)]);
    out
}

/// Writes bytes in base sixteen.
pub fn hex(bytes: &[u8]) -> (r: String)
    ensures
        r@ == hexadecimal(bytes@),
{
    let mut out = String::new();
    let mut i: usize = 0;
    while i < bytes.len()
        invariant
            i <= bytes@.len(),
            out@ == hexadecimal(bytes@.take(i as int)),
        decreases bytes@.len() - i,
    {
        let byte: usize = bytes[i] as usize;
        push_digit(&mut out, byte / 16);
        push_digit(&mut out, byte % 16);
        assert(bytes@.take(i + 1).drop_last() =~= bytes@.take(i as int));
        i = i + 1;
    }
    assert(bytes@.take(i as int) =~= bytes@);
    out
}

/// Base sixteen takes two digits a byte, and each is one of the sixteen.
pub proof fn lemma_hexadecimal(bytes: Seq<u8>)
    ensures
        hexadecimal(bytes).len() == 2 * bytes.len(),
        forall|i: int|
            0 <= i < hexadecimal(bytes).len() ==> ('0' <= #[trigger] hexadecimal(bytes)[i] <= '9'
                || 'a' <= hexadecimal(bytes)[i] <= 'f'),
    decreases bytes.len(),
{
    reveal_strlit("0123456789abcdef");
    if bytes.len() > 0 {
        lemma_hexadecimal(bytes.drop_last());
    }
}

/// Whether `part` stands in `s` from position `i` on.
pub open spec fn stands_at(s: Seq<char>, part: Seq<char>, i: int) -> bool {
    0 <= i && i + part.len() <= s.len() && s.subrange(i, i + part.len()) == part
}

/// Decides whether `part` stands in `s` from position `i` on.
pub fn matches_at(s: &Vec<char>, part: &Vec<char>, i: usize) -> (r: bool)
    requires
        i <= s@.len(),
    ensures
        r == stands_at(s@, part@, i as int),
{
    let end: usize = s.len();
    if end - i < part.len() {
        return false;
    }
    let mut k: usize = 0;
    while k < part.len()
        invariant
            k <= part@.len(),
            end == s@.len(),
            i + part@.len() <= s@.len(),
            forall|j: int| 0 <= j < k ==> s@[i + j] == #[trigger] part@[j],
        decreases part@.len() - k,
    {
        if s[i + k] != part[k] {
            assert(s@.subrange(i as int, i + part@.len())[k as int] != part@[k as int]);
            return false;
        }
        k = k + 1;
    }
    assert(s@.subrange(i as int, i + part@.len()) =~= part@);
    true
}

/// The value of decimal digits, where there are only such.
pub open spec fn digits_value(s: Seq<char>) -> Option<nat>
    decreases s.len(),
{
    if s.len() == 0 {
        Some(0)
    } else {
        match digits_value(s.drop_last()) {
            Some(front) if '0' <= s.last() <= '9' => Some(
                (front * 10 + (s.last() as int - '0' as int)) as nat,
            ),
            _ => None,
        }
    }
}

/// The number that a text spells in base ten, with a plus before it or none, where it fits
/// into the machine's size type.
pub open spec fn parsed_size(s: Seq<char>) -> Option<nat> {
    let digits = if s.len() > 0 && s[0] == '+' {
        s.skip(1)
    } else {
        s
    };
    if digits.len() == 0 {
        None
    } else {
        match digits_value(digits) {
            Some(value) if value <= usize::MAX => Some(value),
            _ => None,
        }
    }
}

/// A prefix that is no number, or one beyond a bound, makes the whole so.
proof fn lemma_digits_prefix(s: Seq<char>, n: int)
    requires
        0 <= n <= s.len(),
    ensures
        digits_value(s.take(n)) is None ==> digits_value(s) is None,
        digits_value(s) is Some ==> digits_value(s.take(n)) is Some && digits_value(s.take(n))->0
            <= digits_value(s)->0,
    decreases s.len() - n,
{
    if n < s.len() {
        assert(s.take(n + 1).drop_last() =~= s.take(n));
        lemma_digits_prefix(s, n + 1);
    } else {
        assert(s.take(n) =~= s);
    }
}

/// Reads the number that a part of a text spells.
pub fn parse_size(s: &Vec<char>, from: usize, to: usize) -> (r: Option<usize>)
    requires
        from <= to <= s@.len(),
    ensures
        match r {
            Some(value) => parsed_size(s@.subrange(from as int, to as int)) == Some(value as nat),
            None => parsed_size(s@.subrange(from as int, to as int)) is None,
        },
{
    let ghost whole = s@.subrange(from as int, to as int);
    let start: usize = if from < to && s[from] == '+' {
        from + 1
    } else {
        from
    };
    let ghost digits = s@.subrange(start as int, to as int);
    assert(start > from ==> whole.skip(1) =~= digits);
    if start == to {
        return None;
    }
    let mut value: usize = 0;
    let mut i: usize = start;
    assert(digits.take(0) =~= Seq::<char>::empty());
    while i < to
        invariant
            start <= i <= to <= s@.len(),
            digits == s@.subrange(start as int, to as int),
            digits_value(digits.take(i - start)) == Some(value as nat),
            digits.len() > 0,
            digits == if whole.len() > 0 && whole[0] == '+' {
                whole.skip(1)
            } else {
                whole
            },
            whole == s@.subrange(from as int, to as int),
        decreases to - i,
    {
        let c = s[i];
        proof {
            assert(digits.take(i + 1 - start).drop_last() =~= digits.take(i - start));
            assert(digits.take(i + 1 - start).last() == c);
            lemma_digits_prefix(digits, i + 1 - start);
        }
        if !('0' <= c && c <= '9') {
            return None;
        }
        let d: usize = (c as u8 - 48) as usize;
        if value > (usize::MAX - d) / 10 {
            return None;
        }
        value = value * 10 + d;
        i = i + 1;
    }
    assert(digits.take(i - start) =~= digits);
    Some(value)
}

} // verus!
