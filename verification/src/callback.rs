//! The loopback callback of a standalone login.

use vstd::prelude::*;
use vstd::string::*;
use vstd::utf8::*;

use crate::endpoint;
use crate::endpoint::{HostAddress, UrlParts, UrlView};
use crate::error;
use crate::error::{configuration, pair, protocol, ClientError, ErrorView};
use crate::limits::TimeSpan;
use crate::outside;
use crate::outside::{parse_url, utf8_text};
use crate::text;
use crate::text::{characters, decimal_text, same, scan, Class};

verus! {

/// Most bytes of a callback request that are read.
pub const CALLBACK_BYTES: usize = 16_384;

/// What a callback request is answered with.
pub const CALLBACK_RESPONSE: &'static str = "HTTP/1.1 200 OK\r\nContent-Type: text/plain\r\nContent-Length: 32\r\nConnection: close\r\n\r\nAuthorization complete. Close tab.";

/// Where a callback is awaited.
#[derive(Debug, PartialEq, Eq)]
pub struct CallbackEndpoint {
    /// Loopback address.
    pub address: HostAddress,
    /// The address as written in a URL.
    pub host: String,
    /// Port.
    pub port: u16,
}

/// The contents of a callback endpoint.
#[verifier::ext_equal]
pub struct CallbackView {
    pub address: HostAddress,
    pub host: Seq<char>,
    pub port: u16,
}

impl View for CallbackEndpoint {
    type V = CallbackView;

    open spec fn view(&self) -> CallbackView {
        CallbackView { address: self.address, host: self.host@, port: self.port }
    }
}

/// Where the callback of a redirect URL that was parsed like this is awaited.
pub open spec fn callback_endpoint(parsed: Result<UrlView, Seq<char>>) -> Result<
    CallbackView,
    ErrorView,
> {
    match parsed {
        Err(reason) => Err(ErrorView::Configuration("invalid OAuth redirect: "@ + reason)),
        Ok(url) => if url.scheme != "http"@ {
            Err(ErrorView::Configuration("standalone login requires an HTTP loopback redirect"@))
        } else if url.host is None {
            Err(ErrorView::Configuration("OAuth redirect has no host"@))
        } else if url.address is None {
            Err(ErrorView::Configuration("OAuth redirect host must be a loopback IP"@))
        } else if !url.address->0.loopback() {
            Err(ErrorView::Configuration("OAuth redirect host must be loopback"@))
        } else if url.port is None {
            Err(ErrorView::Configuration("OAuth redirect requires an explicit port"@))
        } else {
            Ok(CallbackView { address: url.address->0, host: url.host->0, port: url.port->0 })
        },
    }
}

/// Where the callback of a redirect URL is awaited.
pub fn loopback_callback(redirect_uri: &str) -> (r: Result<CallbackEndpoint, ClientError>)
    ensures
        error::outcome(r) == callback_endpoint(outside::parsed_url(redirect_uri@)),
{
    loopback_parsed(parse_url(redirect_uri))
}

/// Where the callback of a redirect URL that was parsed like this is awaited.
pub fn loopback_parsed(parsed: Result<UrlParts, String>) -> (r: Result<
    CallbackEndpoint,
    ClientError,
>)
    ensures
        error::outcome(r) == callback_endpoint(endpoint::url_outcome(parsed)),
{
    let url = match parsed {
        Ok(url) => url,
        Err(reason) => return Err(
            ClientError::Configuration(pair("invalid OAuth redirect: ", reason.as_str())),
        ),
    };
    if !same(url.scheme.as_str(), "http") {
        return Err(configuration("standalone login requires an HTTP loopback redirect"));
    }
    let host = match url.host {
        Some(host) => host,
        None => return Err(configuration("OAuth redirect has no host")),
    };
    let address = match url.address {
        Some(address) => address,
        None => return Err(configuration("OAuth redirect host must be a loopback IP")),
    };
    if !address.is_loopback() {
        return Err(configuration("OAuth redirect host must be loopback"));
    }
    match url.port {
        Some(port) => Ok(CallbackEndpoint { address, host, port }),
        None => Err(configuration("OAuth redirect requires an explicit port")),
    }
}

/// How long a callback is awaited.
pub fn callback_timeout() -> (r: TimeSpan)
    ensures
        r == (TimeSpan { secs: 300, nanos: 0 }),
{
    TimeSpan::from_secs(300)
}

/// The second of the words that white space parts a line into.
pub open spec fn second_word(line: Seq<char>) -> Option<Seq<char>> {
    let first = text::trimmed_start(line, Class::Space);
    let after = first.skip(text::leading(first, Class::Solid));
    let second = text::trimmed_start(after, Class::Space);
    let word = second.take(text::leading(second, Class::Solid));
    if word.len() > 0 {
        Some(word)
    } else {
        None
    }
}

/// The first line of a text, without the newline.
pub open spec fn first_line(text: Seq<char>) -> Seq<char> {
    text.take(text::position(text, '\n'))
}

/// The URL that a callback request asks for.
pub open spec fn callback_url(endpoint: CallbackView, request: Seq<u8>) -> Result<
    Seq<char>,
    ErrorView,
> {
    if !valid_utf8(request) {
        Err(ErrorView::Protocol("OAuth callback is not UTF-8"@))
    } else {
        match second_word(first_line(decode_utf8(request))) {
            None => Err(ErrorView::Protocol("OAuth callback request is malformed"@)),
            Some(target) => Ok(
                "http://"@ + endpoint.host + ":"@ + text::decimal(endpoint.port as nat) + target,
            ),
        }
    }
}

/// The second word of the first line of a request.
fn request_target(request: &str) -> (r: Option<String>)
    ensures
        error::optional_text(r) == second_word(first_line(request@)),
{
    let letters = characters(request);
    let end: usize = scan(&letters, 0, letters.len(), Class::Except('\n'));
    let ghost line = first_line(request@);
    assert(letters@.subrange(0, letters@.len() as int) =~= request@);
    assert(letters@.subrange(0, end as int) =~= line);
    let first: usize = scan(&letters, 0, end, Class::Space);
    assert(letters@.subrange(first as int, end as int) =~= line.skip(first as int));
    let after: usize = scan(&letters, first, end, Class::Solid);
    assert(letters@.subrange(after as int, end as int) =~= line.skip(first as int).skip(
        after - first,
    ));
    let second: usize = scan(&letters, after, end, Class::Space);
    let ghost rest = letters@.subrange(after as int, end as int);
    assert(letters@.subrange(second as int, end as int) =~= rest.skip(second - after));
    let stop: usize = scan(&letters, second, end, Class::Solid);
    assert(letters@.subrange(second as int, stop as int) =~= rest.skip(second - after).take(
        stop - second,
    ));
    if second < stop {
        Some(request.substring_char(second, stop).to_owned())
    } else {
        None
    }
}

impl CallbackEndpoint {
    /// The URL that a callback request asks for.
    pub fn callback(&self, request: &[u8]) -> (r: Result<String, ClientError>)
        ensures
            error::outcome(r) == callback_url(self@, request@),
    {
        let request = match utf8_text(request) {
            Some(request) => request,
            None => return Err(protocol("OAuth callback is not UTF-8")),
        };
        match request_target(request.as_str()) {
            Some(target) => {
                let mut url = pair("http://", self.host.as_str());
                url.append(":");
                url.append(decimal_text(self.port as usize).as_str());
                url.append(target.as_str());
                Ok(url)
            },
            None => Err(protocol("OAuth callback request is malformed")),
        }
    }
}

} // verus!
