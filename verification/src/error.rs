//! The ways in which a search can fail.

use vstd::prelude::*;

verus! {

/// Why a search did not produce a match.
#[derive(Clone, Copy, Debug, PartialEq, Eq, Structural)]
pub enum SearchError {
    /// The descriptor text is not a well-formed descriptor.
    ParseError,
    /// The descriptor has no wildcard, so it has no child sequence to search.
    ValidationError,
    /// No address could be derived at some index, or the index space ran out.
    DerivationError,
    /// Workers and coordinator lost contact; a defect, not a user-facing condition.
    ChannelError,
}

impl SearchError {
    /// True for the errors that are reported before any worker is started.
    pub open spec fn is_startup(self) -> bool {
        self == SearchError::ParseError || self == SearchError::ValidationError
    }

    /// What the user is told about the error.
    pub open spec fn message_text(self) -> Seq<char> {
        match self {
            SearchError::ParseError => "Error: Not a well-formed descriptor"@,
            SearchError::ValidationError => {
                "Error: Not a ranged ('*' inside) descriptor, can't derive addresses"@
            },
            SearchError::DerivationError => "Error: Failed to derive address"@,
            SearchError::ChannelError => "Error: Couldn't receive result over channel"@,
        }
    }

    /// Tells whether the error belongs to the startup phase.
    pub fn fatal_at_startup(&self) -> (r: bool)
        ensures
            r == self.is_startup(),
    {
        match self {
            SearchError::ParseError => true,
            SearchError::ValidationError => true,
            SearchError::DerivationError => false,
            SearchError::ChannelError => false,
        }
    }

    /// The line that tells the user about the error.
    pub fn message(&self) -> (r: String)
        ensures
            r@ == self.message_text(),
    {
        match self {
            SearchError::ParseError => "Error: Not a well-formed descriptor".to_owned(),
            SearchError::ValidationError => {
                "Error: Not a ranged ('*' inside) descriptor, can't derive addresses".to_owned()
            },
            SearchError::DerivationError => "Error: Failed to derive address".to_owned(),
            SearchError::ChannelError => "Error: Couldn't receive result over channel".to_owned(),
        }
    }
}

} // verus!
