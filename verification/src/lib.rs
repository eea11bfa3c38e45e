//! A blackjack rules engine: deck, scoring, the hit/stand turn logic and the
//! record that carries a round from one command to the next.

pub mod card;
pub mod deck;
pub mod error;
pub mod game;
pub mod record;
pub mod session;
pub mod text;
