//! Buffered HTTP exchanges on behalf of OAuth.

use vstd::prelude::*;
use vstd::string::*;

use crate::error::{protocol, ClientError, ErrorView};
use crate::headers;
use crate::limits;
use crate::limits::{ensure_bound, Limits};
use crate::outside::{
    header_name, header_text, header_value_is_valid, method_is_valid, status_is_valid,
};
use crate::refusal;
use crate::text_map::TextMap;
use crate::transport::{HttpRequest, HttpResponse};

verus! {

/// Bytes that are visible ASCII characters, spaces and tabs.
pub open spec fn visible(value: Seq<u8>) -> bool {
    forall|i: int|
        0 <= i < value.len() ==> (#[trigger] value[i] == 0x09 || 0x20 <= value[i] <= 0x7e)
}

/// The characters that ASCII bytes are.
pub open spec fn ascii_text(value: Seq<u8>) -> Seq<char> {
    Seq::new(value.len(), |i: int| value[i] as char)
}

/// Whether every header value is text.
pub open spec fn all_visible(pairs: Seq<(String, Vec<u8>)>) -> bool {
    forall|i: int| 0 <= i < pairs.len() ==> visible((#[trigger] pairs[i]).1@)
}

/// The headers whose values are text, the later of two under one name.
pub open spec fn text_headers(pairs: Seq<(String, Vec<u8>)>) -> Map<Seq<char>, Seq<char>>
    decreases pairs.len(),
{
    if pairs.len() == 0 {
        Map::empty()
    } else {
        let front = text_headers(pairs.drop_last());
        if visible(pairs.last().1@) {
            front.insert(pairs.last().0@, ascii_text(pairs.last().1@))
        } else {
            front
        }
    }
}

/// Adds one more header whose value is text.
fn add_header(sent: &mut TextMap<String>, name: &String, value: String)
    ensures
        headers::texts(final(sent)@) == headers::texts(old(sent)@).insert(name@, value@),
{
    let ghost was = sent@;
    let ghost key = name@;
    let name = name.clone();
    sent.insert(name, value);
    assert(headers::texts(sent@) =~= headers::texts(was).insert(key, value@));
}

/// The headers of a request, all of whose values have to be text.
pub fn outbound_headers(pairs: &Vec<(String, Vec<u8>)>) -> (r: Result<TextMap<String>, String>)
    ensures
        r is Ok <==> all_visible(pairs@),
        r is Ok ==> headers::texts(r->Ok_0@) == text_headers(pairs@),
        r is Err ==> r->Err_0@ == "OAuth response/request header is not text"@,
{
    let mut sent: TextMap<String> = TextMap::new();
    let mut i: usize = 0;
    assert(headers::texts(sent@) =~= text_headers(pairs@.take(0)));
    while i < pairs.len()
        invariant
            i <= pairs@.len(),
            headers::texts(sent@) == text_headers(pairs@.take(i as int)),
            forall|j: int| 0 <= j < i ==> visible((#[trigger] pairs@[j]).1@),
        decreases pairs@.len() - i,
    {
        assert(pairs@.take(i + 1).drop_last() =~= pairs@.take(i as int));
        match header_text(pairs[i].1.as_slice()) {
            Some(value) => add_header(&mut sent, &pairs[i].0, value),
            None => {
                assert(!visible(pairs@[i as int].1@));
                return Err("OAuth response/request header is not text".to_owned());
            },
        }
        i = i + 1;
    }
    assert(pairs@.take(i as int) =~= pairs@);
    Ok(sent)
}

/// The headers of a response, without those whose values are not text.
pub fn inbound_headers(pairs: &Vec<(String, Vec<u8>)>) -> (r: TextMap<String>)
    ensures
        headers::texts(r@) == text_headers(pairs@),
{
    let mut kept: TextMap<String> = TextMap::new();
    let mut i: usize = 0;
    assert(headers::texts(kept@) =~= text_headers(pairs@.take(0)));
    while i < pairs.len()
        invariant
            i <= pairs@.len(),
            headers::texts(kept@) == text_headers(pairs@.take(i as int)),
        decreases pairs@.len() - i,
    {
        assert(pairs@.take(i + 1).drop_last() =~= pairs@.take(i as int));
        match header_text(pairs[i].1.as_slice()) {
            Some(value) => add_header(&mut kept, &pairs[i].0, value),
            None => {},
        }
        i = i + 1;
    }
    assert(pairs@.take(i as int) =~= pairs@);
    kept
}

/// The request that an exchange is asked to execute.
pub fn outbound(
    method: String,
    url: String,
    pairs: &Vec<(String, Vec<u8>)>,
    body: Vec<u8>,
) -> (r: Result<HttpRequest, String>)
    ensures
        r is Ok <==> all_visible(pairs@),
        r is Ok ==> {
            &&& r->Ok_0.method == method
            &&& r->Ok_0.url == url
            &&& headers::texts(r->Ok_0.headers@) == text_headers(pairs@)
            &&& r->Ok_0.body == body
        },
        r is Err ==> r->Err_0@ == "OAuth response/request header is not text"@,
{
    let headers = outbound_headers(pairs)?;
    Ok(HttpRequest { method, url, headers, body })
}

/// What speaks against a method.
pub open spec fn method_refusal(method: Seq<char>) -> Option<ErrorView> {
    if headers::valid_method(method) {
        None
    } else {
        Some(ErrorView::Protocol("invalid OAuth HTTP method"@))
    }
}

/// Checks the method of a request before it is sent.
pub fn validate_method(method: &str) -> (r: Result<(), ClientError>)
    ensures
        refusal::checked(r, method_refusal(method@)),
{
    if method_is_valid(method) {
        Ok(())
    } else {
        Err(protocol("invalid OAuth HTTP method"))
    }
}

/// Buffers a response, or refuses it whole where its body is larger than a frame may be.
pub fn collect_response(status: u16, pairs: &Vec<(String, Vec<u8>)>, body: Vec<u8>) -> (r: Result<
    HttpResponse,
    ClientError,
>)
    ensures
        refusal::checked(
            r,
            limits::bound_refusal(
                "max_frame_bytes"@,
                body@.len(),
                limits::default_limits().max_frame_bytes as nat,
            ),
        ),
        r is Ok ==> {
            &&& r->Ok_0.status == status
            &&& headers::texts(r->Ok_0.headers@) == text_headers(pairs@)
            &&& r->Ok_0.body == body
        },
{
    ensure_bound("max_frame_bytes", body.len(), Limits::default().max_frame_bytes)?;
    Ok(HttpResponse { status, headers: inbound_headers(pairs), body })
}

/// Whether every header can be one of a response.
pub open spec fn sendable(pairs: Seq<(Seq<char>, String)>) -> bool {
    forall|i: int|
        0 <= i < pairs.len() ==> headers::valid_name((#[trigger] pairs[i]).0)
            && headers::valid_value(pairs[i].1@)
}

/// Checks a response before it is handed to the authorization machinery.
pub fn validate_response(response: &HttpResponse) -> (r: Result<(), String>)
    ensures
        r is Ok <==> 100 <= response.status <= 999 && sendable(response.headers.pairs()),
        r is Err ==> r->Err_0@ == if 100 <= response.status <= 999 {
            "invalid OAuth response"@
        } else {
            "invalid OAuth response status"@
        },
{
    if !status_is_valid(response.status) {
        return Err("invalid OAuth response status".to_owned());
    }
    let ghost pairs = response.headers.pairs();
    let mut i: usize = 0;
    while i < response.headers.len()
        invariant
            i <= pairs.len(),
            pairs == response.headers.pairs(),
            100 <= response.status <= 999,
            forall|j: int|
                0 <= j < i ==> headers::valid_name((#[trigger] pairs[j]).0) && headers::valid_value(
                    pairs[j].1@,
                ),
        decreases pairs.len() - i,
    {
        if header_name(response.headers.key(i)).is_none() || !header_value_is_valid(
            response.headers.value(i).as_str(),
        ) {
            assert(!(headers::valid_name(pairs[i as int].0) && headers::valid_value(
                pairs[i as int].1@,
            )));
            return Err("invalid OAuth response".to_owned());
        }
        i = i + 1;
    }
    Ok(())
}

/// Hands the outcome of an exchange on to the authorization machinery: a response that it can
/// take, or a text that holds nothing of why an exchange failed.
pub fn accept_response(exchanged: Result<HttpResponse, ClientError>) -> (r: Result<
    HttpResponse,
    String,
>)
    ensures
        match exchanged {
            Err(_) => r is Err && r->Err_0@ == "OAuth HTTP exchange failed"@,
            Ok(response) => {
                &&& r is Ok <==> 100 <= response.status <= 999 && sendable(
                    response.headers.pairs(),
                )
                &&& r is Ok ==> r->Ok_0 == response
                &&& r is Err ==> r->Err_0@ == if 100 <= response.status <= 999 {
                    "invalid OAuth response"@
                } else {
                    "invalid OAuth response status"@
                }
            },
        },
{
    match exchanged {
        Ok(response) => match validate_response(&response) {
            Ok(()) => Ok(response),
            Err(reason) => Err(reason),
        },
        Err(_) => Err("OAuth HTTP exchange failed".to_owned()),
    }
}

} // verus!
