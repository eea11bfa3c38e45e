//! The ways a round can fail.

use vstd::prelude::*;

verus! {

/// Why an operation on a game could not be carried out.
#[derive(Clone, Copy, Debug, PartialEq, Eq, Structural)]
pub enum GameError {
    /// A card was to be drawn and the deck was empty.
    DeckExhausted,
    /// A hand holds a token that is not one of the thirteen ranks.
    InvalidRank,
    /// A stored record could not be read back.
    MalformedRecord,
}

impl GameError {
    /// The reason shown to the player when the round is ended by this error.
    pub open spec fn reason(self) -> Seq<char> {
        match self {
            GameError::DeckExhausted => "Insufficient Cards"@,
            GameError::InvalidRank => "Invalid Card Name"@,
            GameError::MalformedRecord => "Malformed Record"@,
        }
    }

    /// The reason shown to the player when the round is ended by this error.
    pub fn message(&self) -> (text: &'static str)
        ensures
            text@ == self.reason(),
    {
        match self {
            GameError::DeckExhausted => "Insufficient Cards",
            GameError::InvalidRank => "Invalid Card Name",
            GameError::MalformedRecord => "Malformed Record",
        }
    }
}

} // verus!
