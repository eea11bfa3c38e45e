//! The record that carries a game from one command to the next.

use crate::card::{Card, Token};
use crate::game::{Game, Table};
use vstd::prelude::*;

verus! {

/// A game as it is stored between two commands: the two hands and the cards
/// still to be drawn, each in its order.
#[derive(Clone, Debug, PartialEq, Eq)]
pub struct Record {
    /// The dealer's hand, the face-up card first.
    pub dealer_cards: Vec<Card>,
    /// The player's hand.
    pub player_cards: Vec<Card>,
    /// The cards still to be drawn, the next one first.
    pub card2use: Vec<Card>,
}

/// The mathematical view of a record.
#[verifier::ext_equal]
pub struct RecordView {
    pub dealer_cards: Seq<Token>,
    pub player_cards: Seq<Token>,
    pub card2use: Seq<Token>,
}

impl View for Record {
    type V = RecordView;

    open spec fn view(&self) -> RecordView {
        RecordView {
            dealer_cards: self.dealer_cards.deep_view(),
            player_cards: self.player_cards.deep_view(),
            card2use: self.card2use.deep_view(),
        }
    }
}

impl RecordView {
    /// The table that the record was written from.
    pub open spec fn table(self) -> Table {
        Table { dealer: self.dealer_cards, player: self.player_cards, deck: self.card2use }
    }
}

impl Table {
    /// The record of this table.
    pub open spec fn record(self) -> RecordView {
        RecordView { dealer_cards: self.dealer, player_cards: self.player, card2use: self.deck }
    }
}

/// Writing a table down and reading it back gives the same table, and
/// reading a record and writing it down again gives the same record.
pub proof fn lemma_round_trip(table: Table, record: RecordView)
    ensures
        table.record().table() == table,
        record.table().record() == record,
{
}

impl Game {
    /// The game that the record was written from.
    pub fn from_record(record: Record) -> (game: Game)
        ensures
            game.dealer_cards == record.dealer_cards,
            game.player_cards == record.player_cards,
            game.card2use == record.card2use,
            game@ == record@.table(),
    {
        Game {
            dealer_cards: record.dealer_cards,
            player_cards: record.player_cards,
            card2use: record.card2use,
        }
    }

    /// The record of this game.
    pub fn into_record(self) -> (record: Record)
        ensures
            record.dealer_cards == self.dealer_cards,
            record.player_cards == self.player_cards,
            record.card2use == self.card2use,
            record@ == self@.record(),
    {
        Record {
            dealer_cards: self.dealer_cards,
            player_cards: self.player_cards,
            card2use: self.card2use,
        }
    }
}

} // verus!
