//! Secret text.

use vstd::prelude::*;
use vstd::string::*;

use crate::outside::wipe;

verus! {

/// Secret text: it has no formatting of its own, and its bytes are overwritten when it
/// goes away.
pub struct SecretString(String);

impl View for SecretString {
    type V = Seq<char>;

    closed spec fn view(&self) -> Seq<char> {
        self.0@
    }
}

impl SecretString {
    /// Wraps a secret value.
    pub fn new(value: String) -> (r: Self)
        ensures
            r@ == value@,
    {
        SecretString(value)
    }

    /// Exposes the value, at the transport boundary only.
    pub fn expose(&self) -> (r: &str)
        ensures
            r@ == self@,
    {
        self.0.as_str()
    }

    /// What stands for the value wherever it would be shown.
    pub fn redacted(&self) -> (r: String)
        ensures
            r@ == "SecretString([REDACTED])"@,
    {
        "SecretString([REDACTED])".to_owned()
    }

    /// Overwrites the value and leaves it empty.
    pub fn zeroize(&mut self)
        ensures
            final(self)@ == Seq::<char>::empty(),
    {
        wipe(&mut self.0);
    }
}

impl Clone for SecretString {
    fn clone(&self) -> (r: Self)
        ensures
            r@ == self@,
    {
        SecretString(self.0.clone())
    }
}

impl Drop for SecretString {
    fn drop(&mut self)
        opens_invariants none
        no_unwind
    {
        wipe(&mut self.0);
    }
}

} // verus!
