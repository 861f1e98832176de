//! HTTP headers that a connection may declare.

use vstd::prelude::*;
use vstd::string::*;

use crate::error::{configuration, joined, ClientError, ErrorView};
use crate::outside::{header_name, header_value_is_valid};
use crate::text;
use crate::text::{characters, same_ignoring_case};
use crate::text_map::TextMap;

verus! {

/// The characters of an HTTP token.
pub open spec fn token_character(c: char) -> bool {
    ||| 'a' <= c <= 'z'
    ||| 'A' <= c <= 'Z'
    ||| '0' <= c <= '9'
    ||| "!#$%&'*+-.^_`|~"@.contains(c)
}

/// An HTTP token.
pub open spec fn token(value: Seq<char>) -> bool {
    &&& value.len() > 0
    &&& forall|i: int| 0 <= i < value.len() ==> token_character(#[trigger] value[i])
}

/// A header name.
pub open spec fn valid_name(value: Seq<char>) -> bool {
    token(value) && value.len() <= 65535
}

/// A header value.
pub open spec fn valid_value(value: Seq<char>) -> bool {
    forall|i: int|
        0 <= i < value.len() ==> (#[trigger] value[i] == '\t' || value[i] >= ' ' && value[i]
            != '\u{7f}')
}

/// A request method.
pub open spec fn valid_method(value: Seq<char>) -> bool {
    token(value)
}

/// What speaks against one declared header.
pub open spec fn header_refusal(name: Seq<char>, value: Seq<char>) -> Option<ErrorView> {
    if text::lowered(name) == text::lowered("authorization"@) {
        Some(
            ErrorView::Configuration(
                "authorization is a credential and cannot appear in connection headers"@,
            ),
        )
    } else if !valid_name(name) {
        Some(ErrorView::Configuration("invalid HTTP header `"@ + name + "`"@))
    } else if !valid_value(value) {
        Some(
            ErrorView::Configuration(
                "invalid value for HTTP header `"@ + text::lowered(name) + "`"@,
            ),
        )
    } else {
        None
    }
}

/// Texts under keys, as character sequences.
pub open spec fn texts(map: Map<Seq<char>, String>) -> Map<Seq<char>, Seq<char>> {
    map.map_values(|text: String| text@)
}

/// The headers that declared pairs are sent as, under lowercase names.
pub open spec fn read_headers(pairs: Seq<(Seq<char>, String)>) -> Result<
    Map<Seq<char>, Seq<char>>,
    ErrorView,
>
    decreases pairs.len(),
{
    if pairs.len() == 0 {
        Ok(Map::empty())
    } else {
        let (name, value) = pairs.last();
        match read_headers(pairs.drop_last()) {
            Err(error) => Err(error),
            Ok(sent) => match header_refusal(name, value@) {
                Some(error) => Err(error),
                None => Ok(sent.insert(text::lowered(name), value@)),
            },
        }
    }
}

/// A header refused among the first `n` is what the whole list is refused for.
pub proof fn lemma_first_refusal(pairs: Seq<(Seq<char>, String)>, n: int)
    requires
        0 <= n <= pairs.len(),
        read_headers(pairs.take(n)) is Err,
    ensures
        read_headers(pairs) == read_headers(pairs.take(n)),
    decreases pairs.len() - n,
{
    if n < pairs.len() {
        assert(pairs.take(n + 1).drop_last() =~= pairs.take(n));
        lemma_first_refusal(pairs, n + 1);
    } else {
        assert(pairs.take(n) =~= pairs);
    }
}

/// A header outcome, seen through its views.
pub open spec fn headers_outcome(r: Result<TextMap<String>, ClientError>) -> Result<
    Map<Seq<char>, Seq<char>>,
    ErrorView,
> {
    match r {
        Ok(map) => Ok(texts(map@)),
        Err(error) => Err(error@),
    }
}

/// Checks one declared header and gives its lowercase name.
fn parse_header(name: &str, value: &str) -> (r: Result<String, ClientError>)
    ensures
        header_refusal(name@, value@) is None <==> r is Ok,
        r is Ok ==> r->Ok_0@ == text::lowered(name@),
        r is Err ==> Some(r->Err_0@) == header_refusal(name@, value@),
{
    let letters = characters(name);
    assert(letters@.subrange(0, letters@.len() as int) =~= name@);
    if same_ignoring_case(&letters, 0, letters.len(), "authorization") {
        return Err(
            configuration("authorization is a credential and cannot appear in connection headers"),
        );
    }
    let lower = match header_name(name) {
        Some(lower) => lower,
        None => return Err(
            ClientError::Configuration(joined("invalid HTTP header `", name, "`")),
        ),
    };
    if !header_value_is_valid(value) {
        return Err(
            ClientError::Configuration(
                joined("invalid value for HTTP header `", lower.as_str(), "`"),
            ),
        );
    }
    Ok(lower)
}

/// Checks declared headers and gives them under lowercase names.
pub fn parse_headers(headers: &TextMap<String>) -> (r: Result<TextMap<String>, ClientError>)
    ensures
        headers_outcome(r) == read_headers(headers.pairs()),
{
    let mut sent: TextMap<String> = TextMap::new();
    let ghost pairs = headers.pairs();
    let mut i: usize = 0;
    assert(texts(sent@) =~= Map::<Seq<char>, Seq<char>>::empty());
    assert(pairs.take(0) =~= Seq::<(Seq<char>, String)>::empty());
    while i < headers.len()
        invariant
            i <= pairs.len(),
            pairs == headers.pairs(),
            read_headers(pairs.take(i as int)) == Ok::<_, ErrorView>(texts(sent@)),
        decreases pairs.len() - i,
    {
        assert(pairs.take(i + 1).drop_last() =~= pairs.take(i as int));
        match parse_header(headers.key(i), headers.value(i).as_str()) {
            Ok(name) => {
                let ghost was = sent@;
                let value = headers.value(i).clone();
                let ghost key = name@;
                let ghost copy = value;
                sent.insert(name, value);
                assert(texts(sent@) =~= texts(was).insert(key, copy@));
            },
            Err(error) => {
                proof {
                    lemma_first_refusal(pairs, i + 1);
                }
                return Err(error);
            },
        }
        i = i + 1;
    }
    assert(pairs.take(i as int) =~= pairs);
    Ok(sent)
}

} // verus!
