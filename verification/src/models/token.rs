//! Access tokens.
use crate::text::{joined, lower, lowercase, same_text};
use vstd::prelude::*;

verus! {

/// What a token lets its bearer do.
#[derive(Clone, Copy, Debug, PartialEq, Eq, Structural)]
pub enum TokenScope {
    Read,
    Write,
    Admin,
}

impl TokenScope {
    /// The name under which the scope is stored.
    pub open spec fn name(self) -> Seq<char> {
        match self {
            TokenScope::Read => "read"@,
            TokenScope::Write => "write"@,
            TokenScope::Admin => "admin"@,
        }
    }

    /// The scope that a lower-case name stands for.
    pub open spec fn named(low: Seq<char>) -> Option<TokenScope> {
        if low == "read"@ {
            Some(TokenScope::Read)
        } else if low == "write"@ {
            Some(TokenScope::Write)
        } else if low == "admin"@ {
            Some(TokenScope::Admin)
        } else {
            None
        }
    }

    /// The name under which the scope is stored.
    pub fn to_string(&self) -> (text: String)
        ensures
            text@ == self.name(),
    {
        match self {
            TokenScope::Read => "read".to_owned(),
            TokenScope::Write => "write".to_owned(),
            TokenScope::Admin => "admin".to_owned(),
        }
    }

    /// Reads a scope name, in any mix of upper and lower case. Any other text is
    /// refused with a message that quotes it.
    pub fn from_str(s: &str) -> (parsed: Result<TokenScope, String>)
        ensures
            match parsed {
                Ok(scope) => TokenScope::named(lowercase(s@)) == Some(scope),
                Err(message) => TokenScope::named(lowercase(s@)) is None && message@
                    == "Invalid scope: "@ + s@,
            },
    {
        let low = lower(s);
        if same_text(low.as_str(), "read") {
            Ok(TokenScope::Read)
        } else if same_text(low.as_str(), "write") {
            Ok(TokenScope::Write)
        } else if same_text(low.as_str(), "admin") {
            Ok(TokenScope::Admin)
        } else {
            Err(joined("Invalid scope: ", s))
        }
    }
}

/// A request to create an access token.
#[derive(Clone, Debug, PartialEq, Eq)]
pub struct CreateApiToken {
    pub name: String,
    pub scope: TokenScope,
    pub expires_in_days: Option<i64>,
}

} // verus!
