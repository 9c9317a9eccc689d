//! Why a store refuses to change.

use vstd::prelude::*;

verus! {

/// A request that a store turns down before it touches its state.
#[derive(Clone, Copy, Debug, PartialEq, Eq)]
pub enum ValidationError {
    /// A profile was to be written under the empty passkey.
    EmptyPasskey,
    /// Usernames were to be registered under the empty passphrase.
    EmptyPassphrase,
    /// A passphrase was to be registered with no username at all.
    EmptyUsernameList,
}

impl ValidationError {
    /// The sentence that describes the error.
    pub open spec fn message_text(self) -> Seq<char> {
        match self {
            ValidationError::EmptyPasskey => "Passkey cannot be empty."@,
            ValidationError::EmptyPassphrase => "Passphrase cannot be empty."@,
            ValidationError::EmptyUsernameList => "Usernames list cannot be empty."@,
        }
    }

    /// The sentence that describes the error, as a string.
    pub fn message(&self) -> (text: String)
        ensures
            text@ == self.message_text(),
    {
        match self {
            ValidationError::EmptyPasskey => "Passkey cannot be empty.".to_owned(),
            ValidationError::EmptyPassphrase => "Passphrase cannot be empty.".to_owned(),
            ValidationError::EmptyUsernameList => "Usernames list cannot be empty.".to_owned(),
        }
    }
}

} // verus!
