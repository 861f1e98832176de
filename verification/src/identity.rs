//! Client-owned connection identity.

use vstd::prelude::*;
use vstd::string::*;

use crate::error::{configuration, ClientError, ErrorView};
use crate::text::characters;

verus! {

/// A character of a connection identifier.
pub open spec fn id_character(c: char) -> bool {
    'a' <= c <= 'z' || '0' <= c <= '9' || c == '_'
}

/// A connection identifier: one to sixty-four lowercase letters, digits and underscores.
pub open spec fn connection_name(value: Seq<char>) -> bool {
    &&& 1 <= value.len() <= 64
    &&& forall|i: int| 0 <= i < value.len() ==> id_character(#[trigger] value[i])
}

/// The refusal of any other identifier.
pub open spec fn bad_connection_name() -> ErrorView {
    ErrorView::Configuration("connection id must match [a-z0-9_]{1,64}"@)
}

/// A client-owned stable identifier used to tell aggregated servers apart.
#[derive(Debug, PartialEq, Eq, PartialOrd, Ord, Hash)]
pub struct ConnectionId(String);

impl View for ConnectionId {
    type V = Seq<char>;

    closed spec fn view(&self) -> Seq<char> {
        self.0@
    }
}

impl Clone for ConnectionId {
    fn clone(&self) -> (r: Self)
        ensures
            r@ == self@,
    {
        proof {
            use_type_invariant(self);
        }
        ConnectionId(self.0.clone())
    }
}

impl ConnectionId {
    #[verifier::type_invariant]
    spec fn valid(self) -> bool {
        connection_name(self.0@)
    }

    /// Validates an identifier.
    pub fn new(value: &str) -> (r: Result<Self, ClientError>)
        ensures
            r is Ok <==> connection_name(value@),
            r is Ok ==> r->Ok_0@ == value@,
            r is Err ==> r->Err_0@ == bad_connection_name(),
    {
        let letters = characters(value);
        let mut valid = 1 <= letters.len() && letters.len() <= 64;
        let mut i: usize = 0;
        while i < letters.len()
            invariant
                i <= letters@.len(),
                letters@ == value@,
                valid == (1 <= value@.len() <= 64 && forall|j: int|
                    0 <= j < i ==> id_character(#[trigger] value@[j])),
            decreases letters@.len() - i,
        {
            let c = letters[i];
            if !(('a' <= c && c <= 'z') || ('0' <= c && c <= '9') || c == '_') {
                valid = false;
            }
            i = i + 1;
        }
        if valid {
            Ok(ConnectionId(value.to_owned()))
        } else {
            Err(configuration("connection id must match [a-z0-9_]{1,64}"))
        }
    }

    /// The identifier that an authorization failure carries until a connection claims it.
    pub fn oauth() -> (r: Self)
        ensures
            r@ == "oauth"@,
    {
        proof {
            reveal_strlit("oauth");
        }
        ConnectionId("oauth".to_owned())
    }

    /// Borrows the identifier.
    pub fn as_str(&self) -> (r: &str)
        ensures
            r@ == self@,
            connection_name(r@),
    {
        proof {
            use_type_invariant(self);
        }
        self.0.as_str()
    }

    /// Gives the identifier up as text.
    pub fn into_string(self) -> (r: String)
        ensures
            r@ == self@,
            connection_name(r@),
    {
        proof {
            use_type_invariant(&self);
        }
        self.0
    }
}

impl From<ConnectionId> for String {
    fn from(value: ConnectionId) -> (r: String)
        ensures
            r@ == value@,
            connection_name(r@),
    {
        proof {
            use_type_invariant(&value);
        }
        value.0
    }
}

impl vstd::std_specs::convert::FromSpecImpl<ConnectionId> for String {
    open spec fn obeys_from_spec() -> bool {
        true
    }

    closed spec fn from_spec(value: ConnectionId) -> String {
        value.0
    }
}

impl TryFrom<String> for ConnectionId {
    type Error = ClientError;

    fn try_from(value: String) -> (r: Result<Self, ClientError>)
        ensures
            r is Ok <==> connection_name(value@),
            r is Ok ==> r->Ok_0@ == value@,
            r is Err ==> r->Err_0@ == bad_connection_name(),
    {
        ConnectionId::new(value.as_str())
    }
}

impl vstd::std_specs::convert::TryFromSpecImpl<String> for ConnectionId {
    open spec fn obeys_try_from_spec() -> bool {
        false
    }

    closed spec fn try_from_spec(value: String) -> Result<Self, ClientError> {
        if connection_name(value@) {
            Ok(ConnectionId(value))
        } else {
            arbitrary()
        }
    }
}

} // verus!
