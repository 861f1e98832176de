//! URL policy: TLS everywhere but on loopback.

use vstd::prelude::*;
use vstd::string::*;

use crate::error;
use crate::error::{configuration, pair, ClientError, ErrorView};
use crate::refusal;
use crate::outside;
use crate::outside::parse_url;
use crate::text::same;

verus! {

/// An IP address, as the number that its bits make.
#[derive(Debug, Clone, Copy, PartialEq, Eq, Structural)]
pub enum HostAddress {
    /// Version four.
    V4(u32),
    /// Version six.
    V6(u128),
}

impl HostAddress {
    /// The blocks reserved for loopback: `127.0.0.0/8` and `::1`.
    pub open spec fn loopback(self) -> bool {
        match self {
            HostAddress::V4(bits) => 0x7f00_0000 <= bits <= 0x7fff_ffff,
            HostAddress::V6(bits) => bits == 1,
        }
    }

    /// Decides whether the address is loopback.
    pub fn is_loopback(self) -> (r: bool)
        ensures
            r == self.loopback(),
    {
        match self {
            HostAddress::V4(bits) => 0x7f00_0000 <= bits && bits <= 0x7fff_ffff,
            HostAddress::V6(bits) => bits == 1,
        }
    }
}

/// The parts of a URL that policy reads.
#[derive(Debug, PartialEq, Eq)]
pub struct UrlParts {
    /// Scheme, in lower case.
    pub scheme: String,
    /// Host as written in a URL, with the brackets of an IPv6 address.
    pub host: Option<String>,
    /// The address that the host is, where it is one.
    pub address: Option<HostAddress>,
    /// Port, unless it is the default of the scheme.
    pub port: Option<u16>,
    /// User name, empty where there is none.
    pub username: String,
    /// Password.
    pub password: Option<String>,
    /// Fragment.
    pub fragment: Option<String>,
}

/// The contents of URL parts.
#[verifier::ext_equal]
pub struct UrlView {
    pub scheme: Seq<char>,
    pub host: Option<Seq<char>>,
    pub address: Option<HostAddress>,
    pub port: Option<u16>,
    pub username: Seq<char>,
    pub password: Option<Seq<char>>,
    pub fragment: Option<Seq<char>>,
}

impl View for UrlParts {
    type V = UrlView;

    open spec fn view(&self) -> UrlView {
        UrlView {
            scheme: self.scheme@,
            host: error::optional_text(self.host),
            address: self.address,
            port: self.port,
            username: self.username@,
            password: error::optional_text(self.password),
            fragment: error::optional_text(self.fragment),
        }
    }
}

/// A parse outcome, seen through its views.
pub open spec fn url_outcome(r: Result<UrlParts, String>) -> Result<UrlView, Seq<char>> {
    match r {
        Ok(url) => Ok(url@),
        Err(error) => Err(error@),
    }
}

impl UrlView {
    /// The host is this machine.
    pub open spec fn loopback(self) -> bool {
        ||| self.host == Some("localhost"@)
        ||| self.address is Some && self.address->0.loopback()
    }

    /// Traffic is encrypted, or stays on this machine.
    pub open spec fn protected(self) -> bool {
        ||| self.scheme == "https"@
        ||| self.scheme == "http"@ && self.loopback()
    }
}

impl UrlParts {
    /// Decides whether the host is this machine.
    pub fn is_loopback(&self) -> (r: bool)
        ensures
            r == self@.loopback(),
    {
        let named = match &self.host {
            Some(host) => same(host.as_str(), "localhost"),
            None => false,
        };
        let addressed = match self.address {
            Some(address) => address.is_loopback(),
            None => false,
        };
        named || addressed
    }

    /// Decides whether traffic is encrypted or stays on this machine.
    pub fn is_protected(&self) -> (r: bool)
        ensures
            r == self@.protected(),
    {
        same(self.scheme.as_str(), "https") || (same(self.scheme.as_str(), "http")
            && self.is_loopback())
    }
}

/// What speaks against an MCP endpoint that was parsed like this.
pub open spec fn http_url_refusal(parsed: Result<UrlView, Seq<char>>) -> Option<ErrorView> {
    match parsed {
        Err(reason) => Some(ErrorView::Configuration("invalid MCP URL: "@ + reason)),
        Ok(url) => if !url.protected() {
            Some(ErrorView::Configuration("Streamable HTTP requires HTTPS except on loopback"@))
        } else if url.username.len() > 0 || url.password is Some || url.fragment is Some {
            Some(ErrorView::Configuration("MCP URL cannot contain userinfo or a fragment"@))
        } else {
            None
        },
    }
}

/// Checks an MCP endpoint.
pub fn validate_http_url(value: &str) -> (r: Result<(), ClientError>)
    ensures
        refusal::checked(r, http_url_refusal(outside::parsed_url(value@))),
{
    admit_http_url(parse_url(value))
}

/// Checks an MCP endpoint that was parsed like this.
pub fn admit_http_url(parsed: Result<UrlParts, String>) -> (r: Result<(), ClientError>)
    ensures
        refusal::checked(r, http_url_refusal(url_outcome(parsed))),
{
    let url = match parsed {
        Ok(url) => url,
        Err(reason) => return Err(
            ClientError::Configuration(pair("invalid MCP URL: ", reason.as_str())),
        ),
    };
    if !url.is_protected() {
        return Err(configuration("Streamable HTTP requires HTTPS except on loopback"));
    }
    if url.username.as_str().is_empty() && url.password.is_none() && url.fragment.is_none() {
        Ok(())
    } else {
        Err(configuration("MCP URL cannot contain userinfo or a fragment"))
    }
}

} // verus!
