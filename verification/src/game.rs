//! The game: two hands, the cards still to be drawn, and the turn logic.

use crate::card::{
    all_ranks, card_value, is_rank, lemma_all_ranks_permutation, lemma_hand_push,
    lemma_score_permutation, score, Card, Token,
};
use crate::deck::{lemma_standard_deck, new_deck, standard_deck, DECK_SIZE};
use crate::error::GameError;
use crate::text::{decimal, decimal_string, join, joined};
use vstd::multiset::Multiset;
use vstd::prelude::*;
use vstd::seq_lib::*;

verus! {

/// What a hit led to.
#[allow(non_camel_case_types)]
#[derive(Clone, Copy, Debug, PartialEq, Eq, Structural)]
pub enum HitOutcome {
    /// The player's total went past twenty-one: the round is lost.
    BUST,
    /// The player is still in the round.
    CONTINUE,
}

/// How a round ended.
#[derive(Clone, Copy, Debug, PartialEq, Eq, Structural)]
pub enum GameEnding {
    PlayerWin,
    DealerWin,
    Tie,
}

/// Who takes the round on the two final totals. The player's bust is looked
/// at first, whatever the dealer holds.
pub open spec fn ending(player: nat, dealer: nat) -> GameEnding {
    if player > 21 {
        GameEnding::DealerWin
    } else if player < dealer && dealer <= 21 {
        GameEnding::DealerWin
    } else if dealer < player || dealer > 21 {
        GameEnding::PlayerWin
    } else {
        GameEnding::Tie
    }
}

/// Each ending comes on its own set of totals, and every pair of totals has one:
/// the dealer wins on a player's bust or on a higher total that is no bust, the
/// player wins without a bust on a dealer's bust or a higher total, and the
/// round is tied on equal totals up to twenty-one.
pub proof fn lemma_ending_cases(player: nat, dealer: nat)
    ensures
        ending(player, dealer) == GameEnding::DealerWin <==> player > 21 || player < dealer <= 21,
        ending(player, dealer) == GameEnding::PlayerWin <==> player <= 21 && (dealer > 21 || dealer
            < player),
        ending(player, dealer) == GameEnding::Tie <==> player == dealer && player <= 21,
{
}

impl GameEnding {
    /// Who takes the round on the two final totals.
    pub fn decide(player_score: u128, dealer_score: u128) -> (result: GameEnding)
        ensures
            result == ending(player_score as nat, dealer_score as nat),
    {
        if player_score > 21 {
            GameEnding::DealerWin
        } else if player_score < dealer_score && dealer_score <= 21 {
            GameEnding::DealerWin
        } else if dealer_score < player_score || dealer_score > 21 {
            GameEnding::PlayerWin
        } else {
            GameEnding::Tie
        }
    }
}

/// The total of a hand, or `InvalidRank` if one of its tokens names no rank.
pub open spec fn score_of(hand: Seq<Token>) -> Result<nat, GameError> {
    if all_ranks(hand) {
        Ok(score(hand))
    } else {
        Err(GameError::InvalidRank)
    }
}

/// The total of a hand, or its failure, does not depend on the order of the
/// cards: two hands that hold the same cards, each as often as the other, score
/// the same or fail alike.
pub proof fn lemma_score_of_permutation(a: Seq<Token>, b: Seq<Token>)
    requires
        a.to_multiset() == b.to_multiset(),
    ensures
        score_of(a) == score_of(b),
{
    lemma_score_permutation(a, b);
    lemma_all_ranks_permutation(a, b);
}

/// Whether the dealer takes no further card on this hand: its total has
/// reached seventeen, or it cannot be scored at all.
pub open spec fn dealer_done(hand: Seq<Token>) -> bool {
    !all_ranks(hand) || score(hand) >= 17
}

/// The number of cards the dealer has taken when the drawing ends, given that
/// `n` are taken already: the dealer goes on while the hand is not done and
/// the deck still holds a card.
pub open spec fn draws_from(dealer: Seq<Token>, deck: Seq<Token>, n: nat) -> nat
    decreases deck.len() - n,
{
    if n >= deck.len() || dealer_done(dealer + deck.take(n as int)) {
        n
    } else {
        draws_from(dealer, deck, n + 1)
    }
}

/// The number of cards the dealer takes after the player stands: one in any
/// case, then more while the hand is below seventeen, as far as the deck reaches.
pub open spec fn dealer_draws(dealer: Seq<Token>, deck: Seq<Token>) -> nat {
    if deck.len() == 0 {
        0
    } else {
        draws_from(dealer, deck, 1)
    }
}

/// The mathematical view of a game: its three sequences of rank tokens.
#[verifier::ext_equal]
pub struct Table {
    /// The dealer's hand, the face-up card first.
    pub dealer: Seq<Token>,
    /// The player's hand, in the order drawn.
    pub player: Seq<Token>,
    /// The cards still to be drawn, the next one first.
    pub deck: Seq<Token>,
}

impl Table {
    /// All cards on the table, each as often as it occurs in the two hands and the deck.
    pub open spec fn cards(self) -> Multiset<Token> {
        self.player.to_multiset().add(self.dealer.to_multiset()).add(self.deck.to_multiset())
    }

    /// The number of cards on the table.
    pub open spec fn count(self) -> nat {
        self.player.len() + self.dealer.len() + self.deck.len()
    }

    /// How often the token occurs in the two hands and the deck together.
    pub open spec fn occurrences(self, token: Token) -> nat {
        self.player.to_multiset().count(token) + self.dealer.to_multiset().count(token)
            + self.deck.to_multiset().count(token)
    }

    /// Whether the table holds the cards of one standard deck, no more and no
    /// fewer. It does after a new game is made and after every move from there.
    pub open spec fn is_complete(self) -> bool {
        self.cards() == standard_deck().to_multiset()
    }

    /// The table after the player took `n` cards from the front of the deck.
    pub open spec fn deal_player(self, n: int) -> Table {
        Table { dealer: self.dealer, player: self.player + self.deck.take(n), deck: self.deck.skip(n) }
    }

    /// The table after the dealer took `n` cards from the front of the deck.
    pub open spec fn deal_dealer(self, n: int) -> Table {
        Table { dealer: self.dealer + self.deck.take(n), player: self.player, deck: self.deck.skip(n) }
    }

    /// The opening deal: two cards to the player, then one to the dealer. A deck
    /// of fewer than three cards is dealt as far as it reaches and the deal fails.
    pub open spec fn init(self) -> (Table, Result<(), GameError>) {
        if self.deck.len() >= 3 {
            (self.deal_player(2).deal_dealer(1), Ok(()))
        } else {
            (self.deal_player(self.deck.len() as int), Err(GameError::DeckExhausted))
        }
    }

    /// What the player is told of the table, if both hands can be scored.
    pub open spec fn status(self) -> Result<Seq<char>, GameError> {
        if all_ranks(self.player) && all_ranks(self.dealer) {
            Ok(status_text(self.player, score(self.player), self.dealer, score(self.dealer)))
        } else {
            Err(GameError::InvalidRank)
        }
    }

    /// A hit: the player takes the next card and is bust on a total above
    /// twenty-one. Nothing moves when the deck is empty.
    pub open spec fn hit(self) -> (Table, Result<HitOutcome, GameError>) {
        if self.deck.len() == 0 {
            (self, Err(GameError::DeckExhausted))
        } else {
            let next = self.deal_player(1);
            (
                next,
                match score_of(next.player) {
                    Err(e) => Err(e),
                    Ok(total) => if total > 21 {
                        Ok(HitOutcome::BUST)
                    } else {
                        Ok(HitOutcome::CONTINUE)
                    },
                },
            )
        }
    }

    /// A stand: the dealer draws, then the round is decided on the two totals.
    /// The round fails when the deck runs out before the dealer has reached
    /// seventeen, or when a hand cannot be scored.
    pub open spec fn stand(self) -> (Table, Result<GameEnding, GameError>) {
        let next = self.deal_dealer(dealer_draws(self.dealer, self.deck) as int);
        (
            next,
            if self.deck.len() == 0 {
                Err(GameError::DeckExhausted)
            } else if !all_ranks(next.dealer) {
                Err(GameError::InvalidRank)
            } else if score(next.dealer) < 17 {
                Err(GameError::DeckExhausted)
            } else if !all_ranks(next.player) {
                Err(GameError::InvalidRank)
            } else {
                Ok(ending(score(next.player), score(next.dealer)))
            },
        )
    }
}

/// What the player is told of a table: the two hands as they lie, each with its total.
pub open spec fn status_text(
    player: Seq<Token>,
    player_total: nat,
    dealer: Seq<Token>,
    dealer_total: nat,
) -> Seq<char> {
    "Cards in your hand: "@ + joined(player, ", "@) + " (Total Point: "@ + decimal(player_total)
        + "). \nCards (face-up) in my hand: "@ + joined(dealer, ", "@) + " (Total Point: "@
        + decimal(dealer_total) + ")"@
}

/// On a complete table the cards number fifty-two, no token occurs more than
/// four times in the two hands and the deck together, each rank occurs exactly
/// four times, and every card is a rank.
pub proof fn lemma_complete_table(table: Table)
    requires
        table.is_complete(),
    ensures
        table.count() == DECK_SIZE,
        forall|token: Token| #[trigger] table.occurrences(token) <= 4,
        forall|token: Token| is_rank(token) ==> #[trigger] table.occurrences(token) == 4,
        all_ranks(table.player),
        all_ranks(table.dealer),
        all_ranks(table.deck),
{
    broadcast use vstd::multiset::group_multiset_axioms;

    table.player.to_multiset_ensures();
    table.dealer.to_multiset_ensures();
    table.deck.to_multiset_ensures();
    standard_deck().to_multiset_ensures();
    lemma_standard_deck(Seq::empty());
    assert(table.cards().len() == table.count());
    assert forall|token: Token| #[trigger] table.occurrences(token) <= 4 && (is_rank(token)
        ==> table.occurrences(token) == 4) && (!is_rank(token) ==> table.occurrences(token)
        == 0) by {
        lemma_standard_deck(token);
        assert(table.cards().count(token) == table.occurrences(token));
    }
    assert forall|i: int| 0 <= i < table.player.len() implies is_rank(
        #[trigger] table.player[i],
    ) by {
        assert(table.player.contains(table.player[i]));
        assert(table.occurrences(table.player[i]) > 0);
    }
    assert forall|i: int| 0 <= i < table.dealer.len() implies is_rank(
        #[trigger] table.dealer[i],
    ) by {
        assert(table.dealer.contains(table.dealer[i]));
        assert(table.occurrences(table.dealer[i]) > 0);
    }
    assert forall|i: int| 0 <= i < table.deck.len() implies is_rank(#[trigger] table.deck[i]) by {
        assert(table.deck.contains(table.deck[i]));
        assert(table.occurrences(table.deck[i]) > 0);
    }
}

/// Dealing from the front of the deck to either hand moves cards and neither
/// adds nor loses one.
pub proof fn lemma_deal_keeps_cards(table: Table, n: int)
    requires
        0 <= n <= table.deck.len(),
    ensures
        table.deal_player(n).cards() == table.cards(),
        table.deal_dealer(n).cards() == table.cards(),
        table.deal_player(n).count() == table.count(),
        table.deal_dealer(n).count() == table.count(),
{
    let taken = table.deck.take(n);
    let left = table.deck.skip(n);
    assert(table.deck =~= taken + left);
    lemma_multiset_commutative(taken, left);
    lemma_multiset_commutative(table.player, taken);
    lemma_multiset_commutative(table.dealer, taken);
    assert(table.deal_player(n).cards() =~= table.cards());
    assert(table.deal_dealer(n).cards() =~= table.cards());
}

/// No move adds a card to the table or takes one from it: after the opening
/// deal, a hit or a stand, whether it succeeds or fails, the two hands and the
/// deck hold together what they held before.
pub proof fn lemma_moves_keep_cards(table: Table)
    ensures
        table.init().0.cards() == table.cards(),
        table.hit().0.cards() == table.cards(),
        table.stand().0.cards() == table.cards(),
        table.init().0.count() == table.count(),
        table.hit().0.count() == table.count(),
        table.stand().0.count() == table.count(),
{
    if table.deck.len() >= 3 {
        lemma_deal_keeps_cards(table, 2);
        lemma_deal_keeps_cards(table.deal_player(2), 1);
    } else {
        lemma_deal_keeps_cards(table, table.deck.len() as int);
    }
    if table.deck.len() > 0 {
        lemma_deal_keeps_cards(table, 1);
    }
    lemma_dealer_draws(table.dealer, table.deck);
    lemma_deal_keeps_cards(table, dealer_draws(table.dealer, table.deck) as int);
}

/// Cards dealt one after the other are the cards dealt at once.
pub proof fn lemma_deal_one_more(table: Table, n: int)
    requires
        0 <= n < table.deck.len(),
    ensures
        table.deal_player(n).deal_player(1) == table.deal_player(n + 1),
        table.deal_dealer(n).deal_dealer(1) == table.deal_dealer(n + 1),
        table.deal_player(0) == table,
        table.deal_dealer(0) == table,
{
    let deck = table.deck;
    assert(deck.take(n) + deck.skip(n).take(1) =~= deck.take(n + 1));
    assert(deck.skip(n).skip(1) =~= deck.skip(n + 1));
    assert(table.deal_player(n).deal_player(1) =~= table.deal_player(n + 1));
    assert(table.deal_dealer(n).deal_dealer(1) =~= table.deal_dealer(n + 1));
    assert(table.deal_player(0) =~= table);
    assert(table.deal_dealer(0) =~= table);
}

/// What the count of the dealer's draws means: the dealer takes a card while
/// one is left and the hand is not done, and never after that.
pub proof fn lemma_dealer_draws(dealer: Seq<Token>, deck: Seq<Token>)
    ensures
        dealer_draws(dealer, deck) <= deck.len(),
        deck.len() > 0 ==> dealer_draws(dealer, deck) >= 1,
        forall|m: int|
            1 <= m < dealer_draws(dealer, deck) ==> !dealer_done(dealer + #[trigger] deck.take(m)),
        dealer_draws(dealer, deck) < deck.len() ==> dealer_done(
            dealer + deck.take(dealer_draws(dealer, deck) as int),
        ),
{
    if deck.len() > 0 {
        lemma_draws_from(dealer, deck, 1);
    }
}

/// The dealer's rule at the boundary: once the dealer holds `m` cards more
/// than before the stand, a total of sixteen or less forces another draw as
/// long as the deck holds a card, and a total of seventeen or more ends the
/// drawing.
pub proof fn lemma_dealer_rule(dealer: Seq<Token>, deck: Seq<Token>, m: int)
    requires
        1 <= m <= dealer_draws(dealer, deck),
        all_ranks(dealer + deck.take(m)),
    ensures
        score(dealer + deck.take(m)) <= 16 && m < deck.len() ==> dealer_draws(dealer, deck) > m,
        score(dealer + deck.take(m)) >= 17 ==> dealer_draws(dealer, deck) == m,
{
    lemma_dealer_draws(dealer, deck);
}

proof fn lemma_draws_from(dealer: Seq<Token>, deck: Seq<Token>, n: nat)
    requires
        n <= deck.len(),
    ensures
        n <= draws_from(dealer, deck, n) <= deck.len(),
        forall|m: int|
            n <= m < draws_from(dealer, deck, n) ==> !dealer_done(dealer + #[trigger] deck.take(m)),
        draws_from(dealer, deck, n) < deck.len() ==> dealer_done(
            dealer + deck.take(draws_from(dealer, deck, n) as int),
        ),
    decreases deck.len() - n,
{
    if n >= deck.len() || dealer_done(dealer + deck.take(n as int)) {
    } else {
        lemma_draws_from(dealer, deck, n + 1);
    }
}

/// A game of blackjack between one player and the dealer.
#[derive(Clone, Debug, PartialEq, Eq)]
pub struct Game {
    /// The dealer's hand; its first card lies face up.
    pub dealer_cards: Vec<Card>,
    /// The player's hand.
    pub player_cards: Vec<Card>,
    /// The cards still to be drawn, the next one first.
    pub card2use: Vec<Card>,
}

impl View for Game {
    type V = Table;

    open spec fn view(&self) -> Table {
        Table {
            dealer: self.dealer_cards.deep_view(),
            player: self.player_cards.deep_view(),
            deck: self.card2use.deep_view(),
        }
    }
}

impl Game {
    /// A game on a freshly shuffled deck, with no card dealt yet.
    pub fn new() -> (game: Game)
        ensures
            game@.dealer.len() == 0,
            game@.player.len() == 0,
            game@.deck.len() == DECK_SIZE,
            game@.deck.to_multiset() == standard_deck().to_multiset(),
            game@.is_complete(),
    {
        let game = Game::with_deck(new_deck());
        proof {
            broadcast use vstd::multiset::group_multiset_axioms;

            Seq::<Token>::empty().to_multiset_ensures();
            assert(Seq::<Token>::empty().to_multiset().len() == 0);
            assert(game@.cards() =~= game@.deck.to_multiset());
        }
        game
    }

    /// A game on the given deck, its first card the next to be drawn, with no
    /// card dealt yet.
    pub fn with_deck(deck: Vec<Card>) -> (game: Game)
        ensures
            game@ == (Table { dealer: Seq::empty(), player: Seq::empty(), deck: deck.deep_view() }),
    {
        let game = Game { dealer_cards: Vec::new(), player_cards: Vec::new(), card2use: deck };
        assert(game@ =~= (Table {
            dealer: Seq::empty(),
            player: Seq::empty(),
            deck: deck.deep_view(),
        }));
        game
    }

    /// The total of `cards`, or `InvalidRank` if one of them names no rank. The
    /// total is wide enough for any hand that a vector can hold.
    pub fn sum_of(&self, cards: &Vec<Card>) -> (total: Result<u128, GameError>)
        ensures
            match total {
                Ok(t) => score_of(cards.deep_view()) == Ok::<nat, GameError>(t as nat),
                Err(e) => score_of(cards.deep_view()) == Err::<nat, GameError>(e),
            },
    {
        let ghost hand = cards.deep_view();
        let mut sum: u128 = 0;
        let mut i: usize = 0;
        while i < cards.len()
            invariant
                i <= cards.len(),
                hand == cards.deep_view(),
                all_ranks(hand.take(i as int)),
                sum == score(hand.take(i as int)),
                sum <= 11 * i,
            decreases cards.len() - i,
        {
            assert(hand[i as int] == cards[i as int]@);
            assert(hand.take(i + 1).drop_last() =~= hand.take(i as int));
            match card_value(&cards[i]) {
                Some(value) => {
                    sum = sum + value as u128;
                },
                None => {
                    assert(!is_rank(hand[i as int]));
                    return Err(GameError::InvalidRank);
                },
            }
            i = i + 1;
        }
        assert(hand.take(i as int) =~= hand);
        Ok(sum)
    }

    /// Draws the next card. On an empty deck nothing changes and the draw fails.
    pub fn pop_one_card(&mut self) -> (drawn: Result<Card, GameError>)
        ensures
            final(self).dealer_cards == old(self).dealer_cards,
            final(self).player_cards == old(self).player_cards,
            match drawn {
                Ok(card) => old(self)@.deck.len() > 0 && card@ == old(self)@.deck[0]
                    && final(self)@.deck == old(self)@.deck.skip(1),
                Err(e) => e == GameError::DeckExhausted && old(self)@.deck.len() == 0
                    && final(self)@ == old(self)@,
            },
    {
        if self.card2use.len() == 0 {
            Err(GameError::DeckExhausted)
        } else {
            let card = self.card2use.remove(0);
            assert(self.card2use.deep_view() =~= old(self).card2use.deep_view().skip(1));
            Ok(card)
        }
    }

    /// Deals the opening hands: two cards to the player, then one to the dealer.
    pub fn init_game(&mut self) -> (dealt: Result<(), GameError>)
        ensures
            final(self)@ == old(self)@.init().0,
            dealt == old(self)@.init().1,
            final(self)@.cards() == old(self)@.cards(),
            final(self)@.count() == old(self)@.count(),
            old(self)@.is_complete() ==> final(self)@.is_complete(),
    {
        let ghost start = self@;
        let mut i: usize = 0;
        while i < 2
            invariant
                start == old(self)@,
                i <= 2,
                i <= start.deck.len(),
                self@ == start.deal_player(i as int),
            decreases 2 - i,
        {
            let ghost before = *self;
            let card = match self.pop_one_card() {
                Ok(card) => card,
                Err(e) => {
                    proof {
                        lemma_deal_keeps_cards(start, i as int);
                    }
                    return Err(e);
                },
            };
            self.player_cards.push(card);
            proof {
                lemma_hand_push(before.player_cards, self.player_cards, card);
                assert(self@ =~= before@.deal_player(1));
                lemma_deal_one_more(start, i as int);
            }
            i = i + 1;
        }
        proof {
            lemma_deal_keeps_cards(start, 2);
        }
        let ghost before = *self;
        let card = match self.pop_one_card() {
            Ok(card) => card,
            Err(e) => {
                return Err(e);
            },
        };
        self.dealer_cards.push(card);
        proof {
            lemma_hand_push(before.dealer_cards, self.dealer_cards, card);
            assert(self@ =~= before@.deal_dealer(1));
            lemma_deal_keeps_cards(start.deal_player(2), 1);
        }
        Ok(())
    }

    /// The player takes one more card.
    pub fn hit(&mut self) -> (outcome: Result<HitOutcome, GameError>)
        ensures
            final(self)@ == old(self)@.hit().0,
            outcome == old(self)@.hit().1,
            final(self)@.cards() == old(self)@.cards(),
            final(self)@.count() == old(self)@.count(),
            old(self)@.is_complete() ==> final(self)@.is_complete(),
    {
        let ghost start = self@;
        let ghost before = *self;
        let card = match self.pop_one_card() {
            Ok(card) => card,
            Err(e) => {
                return Err(e);
            },
        };
        self.player_cards.push(card);
        proof {
            lemma_hand_push(before.player_cards, self.player_cards, card);
            assert(self@ =~= start.deal_player(1));
            lemma_deal_keeps_cards(start, 1);
        }
        match self.sum_of(&self.player_cards) {
            Err(e) => Err(e),
            Ok(total) => if total > 21 {
                Ok(HitOutcome::BUST)
            } else {
                Ok(HitOutcome::CONTINUE)
            },
        }
    }

    /// The player takes no more cards: the dealer draws to seventeen and the
    /// round is decided.
    pub fn stand(&mut self) -> (result: Result<GameEnding, GameError>)
        ensures
            final(self)@ == old(self)@.stand().0,
            result == old(self)@.stand().1,
            result is Ok ==> score(final(self)@.dealer) >= 17,
            final(self)@.cards() == old(self)@.cards(),
            final(self)@.count() == old(self)@.count(),
            old(self)@.is_complete() ==> final(self)@.is_complete(),
    {
        let ghost start = self@;
        let ghost before = *self;
        let card = match self.pop_one_card() {
            Ok(card) => card,
            Err(e) => {
                proof {
                    assert(self@ =~= start.deal_dealer(0));
                }
                return Err(e);
            },
        };
        self.dealer_cards.push(card);
        let ghost mut n: nat = 1;
        proof {
            lemma_hand_push(before.dealer_cards, self.dealer_cards, card);
            assert(self@ =~= start.deal_dealer(1));
            lemma_deal_keeps_cards(start, 1);
        }
        let mut dealer_score = match self.sum_of(&self.dealer_cards) {
            Ok(total) => total,
            Err(e) => {
                return Err(e);
            },
        };
        while dealer_score < 17
            invariant
                start == old(self)@,
                1 <= n <= start.deck.len(),
                self@ == start.deal_dealer(n as int),
                score_of(self@.dealer) == Ok::<nat, GameError>(dealer_score as nat),
                dealer_draws(start.dealer, start.deck) == draws_from(start.dealer, start.deck, n),
                self@.cards() == start.cards(),
                self@.count() == start.count(),
            decreases start.deck.len() - n,
        {
            let ghost before = *self;
            let card = match self.pop_one_card() {
                Ok(card) => card,
                Err(e) => {
                    return Err(e);
                },
            };
            self.dealer_cards.push(card);
            proof {
                lemma_hand_push(before.dealer_cards, self.dealer_cards, card);
                assert(self@ =~= before@.deal_dealer(1));
                lemma_deal_one_more(start, n as int);
                assert(!dealer_done(start.dealer + start.deck.take(n as int)));
                assert(draws_from(start.dealer, start.deck, n) == draws_from(
                    start.dealer,
                    start.deck,
                    n + 1,
                ));
                n = n + 1;
                lemma_deal_keeps_cards(start, n as int);
            }
            dealer_score = match self.sum_of(&self.dealer_cards) {
                Ok(total) => total,
                Err(e) => {
                    return Err(e);
                },
            };
        }
        let player_score = match self.sum_of(&self.player_cards) {
            Ok(total) => total,
            Err(e) => {
                return Err(e);
            },
        };
        Ok(GameEnding::decide(player_score, dealer_score))
    }

    /// Both hands with their totals, as the player is told them.
    pub fn status(&self) -> (text: Result<String, GameError>)
        ensures
            match text {
                Ok(t) => self@.status() == Ok::<Seq<char>, GameError>(t@),
                Err(e) => self@.status() == Err::<Seq<char>, GameError>(e),
            },
    {
        let player_total = match self.sum_of(&self.player_cards) {
            Ok(total) => total,
            Err(e) => {
                return Err(e);
            },
        };
        let dealer_total = match self.sum_of(&self.dealer_cards) {
            Ok(total) => total,
            Err(e) => {
                return Err(e);
            },
        };
        let mut text = "Cards in your hand: ".to_owned();
        text.append(join(&self.player_cards, ", ").as_str());
        text.append(" (Total Point: ");
        text.append(decimal_string(player_total).as_str());
        text.append("). \nCards (face-up) in my hand: ");
        text.append(join(&self.dealer_cards, ", ").as_str());
        text.append(" (Total Point: ");
        text.append(decimal_string(dealer_total).as_str());
        text.append(")");
        Ok(text)
    }
}

} // verus!
