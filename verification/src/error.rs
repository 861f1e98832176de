//! Failure classes that are safe to record.

use vstd::prelude::*;
use vstd::string::*;

use crate::identity::ConnectionId;
use crate::text;
use crate::text::decimal_text;

verus! {

/// Stable failure classes.
#[derive(Debug, PartialEq, Eq)]
#[non_exhaustive]
pub enum ClientError {
    /// A strict configuration could not be applied.
    Configuration(String),
    /// The server or transport violated the selected protocol.
    Protocol(String),
    /// One named resource bound was exceeded.
    Bound {
        /// Bound identifier.
        name: &'static str,
        /// Observed size or count.
        actual: usize,
        /// Maximum admitted size or count.
        limit: usize,
    },
    /// The transport did not complete.
    Transport(String),
    /// Authorization is required or no longer sufficient.
    AuthorizationRequired {
        /// Connection needing authorization.
        connection: ConnectionId,
        /// Server-challenged scope string, if present.
        scope: Option<String>,
    },
    /// The server requested a feature deliberately outside this client.
    UnsupportedFeature {
        /// Feature identifier.
        feature: &'static str,
    },
    /// Consumer or deadline cancellation.
    Cancelled,
}

/// A failure, with its texts as character sequences.
#[verifier::ext_equal]
pub enum ErrorView {
    Configuration(Seq<char>),
    Protocol(Seq<char>),
    Bound { name: Seq<char>, actual: nat, limit: nat },
    Transport(Seq<char>),
    AuthorizationRequired { connection: Seq<char>, scope: Option<Seq<char>> },
    UnsupportedFeature { feature: Seq<char> },
    Cancelled,
}

/// The characters of an optional string.
pub open spec fn optional_text(text: Option<String>) -> Option<Seq<char>> {
    match text {
        Some(text) => Some(text@),
        None => None,
    }
}

impl View for ClientError {
    type V = ErrorView;

    open spec fn view(&self) -> ErrorView {
        match *self {
            ClientError::Configuration(message) => ErrorView::Configuration(message@),
            ClientError::Protocol(message) => ErrorView::Protocol(message@),
            ClientError::Bound { name, actual, limit } => ErrorView::Bound {
                name: name@,
                actual: actual as nat,
                limit: limit as nat,
            },
            ClientError::Transport(message) => ErrorView::Transport(message@),
            ClientError::AuthorizationRequired { connection, scope } => {
                ErrorView::AuthorizationRequired {
                    connection: connection@,
                    scope: optional_text(scope),
                }
            },
            ClientError::UnsupportedFeature { feature } => ErrorView::UnsupportedFeature {
                feature: feature@,
            },
            ClientError::Cancelled => ErrorView::Cancelled,
        }
    }
}

/// An outcome, seen through its views.
pub open spec fn outcome<T: View>(r: Result<T, ClientError>) -> Result<T::V, ErrorView> {
    match r {
        Ok(value) => Ok(value@),
        Err(error) => Err(error@),
    }
}

impl ErrorView {
    /// The line that is shown for a failure.
    pub open spec fn text(self) -> Seq<char> {
        match self {
            ErrorView::Configuration(message) => "configuration: "@ + message,
            ErrorView::Protocol(message) => "protocol: "@ + message,
            ErrorView::Bound { name, actual, limit } => "bound `"@ + name + "`: "@ + text::decimal(
                actual,
            ) + " exceeds "@ + text::decimal(limit),
            ErrorView::Transport(message) => "transport: "@ + message,
            ErrorView::AuthorizationRequired { connection, scope: None } => {
                "authorization required for `"@ + connection + "`"@
            },
            ErrorView::AuthorizationRequired { connection, scope: Some(scope) } => {
                "authorization required for `"@ + connection + "`"@ + " with scope `"@ + scope
                    + "`"@
            },
            ErrorView::UnsupportedFeature { feature } => "unsupported MCP feature `"@ + feature
                + "`"@,
            ErrorView::Cancelled => "cancelled"@,
        }
    }
}

/// A copy of an optional text.
pub fn copy_optional(text: &Option<String>) -> (r: Option<String>)
    ensures
        optional_text(r) == optional_text(*text),
{
    match text {
        Some(text) => Some(text.clone()),
        None => None,
    }
}

/// `left` and `right` in one string.
pub fn pair(left: &str, right: &str) -> (r: String)
    ensures
        r@ == left@ + right@,
{
    let mut out = left.to_owned();
    out.append(right);
    out
}

/// `left`, `middle` and `right` in one string.
pub fn joined(left: &str, middle: &str, right: &str) -> (r: String)
    ensures
        r@ == left@ + middle@ + right@,
{
    let mut out = left.to_owned();
    out.append(middle);
    out.append(right);
    out
}

impl Clone for ClientError {
    fn clone(&self) -> (r: Self)
        ensures
            r@ == self@,
    {
        match self {
            ClientError::Configuration(message) => ClientError::Configuration(message.clone()),
            ClientError::Protocol(message) => ClientError::Protocol(message.clone()),
            ClientError::Bound { name, actual, limit } => ClientError::Bound {
                name: *name,
                actual: *actual,
                limit: *limit,
            },
            ClientError::Transport(message) => ClientError::Transport(message.clone()),
            ClientError::AuthorizationRequired { connection, scope } => {
                ClientError::AuthorizationRequired {
                    connection: connection.clone(),
                    scope: copy_optional(scope),
                }
            },
            ClientError::UnsupportedFeature { feature } => ClientError::UnsupportedFeature {
                feature: *feature,
            },
            ClientError::Cancelled => ClientError::Cancelled,
        }
    }
}

impl ClientError {
    /// The line that is shown for this failure.
    pub fn to_string(&self) -> (r: String)
        ensures
            r@ == self@.text(),
    {
        match self {
            ClientError::Configuration(message) => pair("configuration: ", message.as_str()),
            ClientError::Protocol(message) => pair("protocol: ", message.as_str()),
            ClientError::Bound { name, actual, limit } => {
                let mut out = joined("bound `", name, "`: ");
                out.append(decimal_text(*actual).as_str());
                out.append(" exceeds ");
                out.append(decimal_text(*limit).as_str());
                out
            },
            ClientError::Transport(message) => pair("transport: ", message.as_str()),
            ClientError::AuthorizationRequired { connection, scope } => {
                let mut out = joined("authorization required for `", connection.as_str(), "`");
                match scope {
                    Some(scope) => {
                        out.append(" with scope `");
                        out.append(scope.as_str());
                        out.append("`");
                    },
                    None => {},
                }
                out
            },
            ClientError::UnsupportedFeature { feature } => joined(
                "unsupported MCP feature `",
                feature,
                "`",
            ),
            ClientError::Cancelled => "cancelled".to_owned(),
        }
    }
}

/// A refusal of a configuration.
pub fn configuration(message: &str) -> (r: ClientError)
    ensures
        r@ == ErrorView::Configuration(message@),
{
    ClientError::Configuration(message.to_owned())
}

/// A violation of the protocol.
pub fn protocol(message: &str) -> (r: ClientError)
    ensures
        r@ == ErrorView::Protocol(message@),
{
    ClientError::Protocol(message.to_owned())
}

/// A transport that did not complete.
pub fn transport(message: &str) -> (r: ClientError)
    ensures
        r@ == ErrorView::Transport(message@),
{
    ClientError::Transport(message.to_owned())
}

} // verus!
