//! The deck: four copies of the thirteen ranks, and its shuffling.

use crate::card::{is_rank, lemma_hand_push, Card, Token};
use rand::seq::SliceRandom;
use rand::thread_rng;
use vstd::prelude::*;
use vstd::seq_lib::*;

verus! {

/// The number of ranks.
pub const RANKS: usize = 13;

/// The number of cards in a deck: four of each rank.
pub const DECK_SIZE: usize = 52;

/// The thirteen ranks, lowest numeral first, the ace last.
pub open spec fn ranks() -> Seq<Token> {
    seq![
        seq!['2'],
        seq!['3'],
        seq!['4'],
        seq!['5'],
        seq!['6'],
        seq!['7'],
        seq!['8'],
        seq!['9'],
        seq!['1', '0'],
        seq!['J'],
        seq!['Q'],
        seq!['K'],
        seq!['A'],
    ]
}

/// The deck before it is shuffled: the ranks in order, four times over.
pub open spec fn standard_deck() -> Seq<Token> {
    Seq::new(DECK_SIZE as nat, |i: int| ranks()[i % (RANKS as int)])
}

/// The token of the `i`-th rank.
pub fn rank_token(i: usize) -> (token: &'static str)
    requires
        i < RANKS,
    ensures
        token@ == ranks()[i as int],
{
    proof {
        reveal_strlit("2");
        reveal_strlit("3");
        reveal_strlit("4");
        reveal_strlit("5");
        reveal_strlit("6");
        reveal_strlit("7");
        reveal_strlit("8");
        reveal_strlit("9");
        reveal_strlit("10");
        reveal_strlit("J");
        reveal_strlit("Q");
        reveal_strlit("K");
        reveal_strlit("A");
    }
    match i {
        0 => "2",
        1 => "3",
        2 => "4",
        3 => "5",
        4 => "6",
        5 => "7",
        6 => "8",
        7 => "9",
        8 => "10",
        9 => "J",
        10 => "Q",
        11 => "K",
        _ => "A",
    }
}

/// The deck in its standard order.
pub fn fresh_deck() -> (deck: Vec<Card>)
    ensures
        deck.deep_view() == standard_deck(),
{
    let mut deck: Vec<Card> = Vec::new();
    let mut i: usize = 0;
    while i < DECK_SIZE
        invariant
            i <= DECK_SIZE,
            deck.deep_view() =~= Seq::new(i as nat, |j: int| ranks()[j % (RANKS as int)]),
        decreases DECK_SIZE - i,
    {
        let ghost before = deck;
        let card = rank_token(i % RANKS).to_owned();
        deck.push(card);
        proof {
            lemma_hand_push(before, deck, card);
        }
        i = i + 1;
    }
    deck
}

/// Shuffles the cards in place with `rand::seq::SliceRandom::shuffle`, drawing
/// on the thread's generator `rand::thread_rng`. The order that comes out is
/// left open; what is relied on is that shuffling only swaps cards, so that
/// the same cards are there afterwards, each as often as before.
#[verifier::external_body]
fn shuffle(cards: &mut Vec<Card>)
    ensures
        final(cards).deep_view().to_multiset() == old(cards).deep_view().to_multiset(),
{
    cards.shuffle(&mut thread_rng());
}

/// A shuffled deck: the cards of the standard deck in an order left to chance.
pub fn new_deck() -> (deck: Vec<Card>)
    ensures
        deck.deep_view().to_multiset() == standard_deck().to_multiset(),
        deck.len() == DECK_SIZE,
{
    let mut deck = fresh_deck();
    shuffle(&mut deck);
    proof {
        deck.deep_view().to_multiset_ensures();
        standard_deck().to_multiset_ensures();
    }
    deck
}

/// The ranks are thirteen different tokens, and they are all the tokens that
/// count as a rank.
pub proof fn lemma_ranks()
    ensures
        ranks().len() == RANKS,
        ranks().no_duplicates(),
        forall|token: Token| ranks().contains(token) <==> is_rank(token),
{
    let r = ranks();
    assert(r.len() == 13);
    assert forall|i: int, j: int| 0 <= i < r.len() && 0 <= j < r.len() && i != j implies r[i]
        != r[j] by {
        assert(r[i].len() != r[j].len() || r[i][0] != r[j][0]);
    }
    assert forall|token: Token| r.contains(token) <==> is_rank(token) by {
        if is_rank(token) {
            if token.len() == 1 {
                assert(token =~= seq![token[0]]);
            } else {
                assert(token =~= seq![token[0], token[1]]);
            }
            assert(token == r[0] || token == r[1] || token == r[2] || token == r[3] || token
                == r[4] || token == r[5] || token == r[6] || token == r[7] || token == r[8]
                || token == r[9] || token == r[10] || token == r[11] || token == r[12]);
        }
        if r.contains(token) {
            let i = choose|i: int| 0 <= i < r.len() && r[i] == token;
            assert(is_rank(r[i]));
        }
    }
}

/// The standard deck holds fifty-two cards: each rank four times and nothing else.
pub proof fn lemma_standard_deck(token: Token)
    ensures
        standard_deck().len() == DECK_SIZE,
        is_rank(token) ==> standard_deck().to_multiset().count(token) == 4,
        !is_rank(token) ==> standard_deck().to_multiset().count(token) == 0,
{
    lemma_ranks();
    let r = ranks();
    assert(standard_deck() =~= r + r + r + r);
    lemma_multiset_commutative(r, r);
    lemma_multiset_commutative(r + r, r);
    lemma_multiset_commutative(r + r + r, r);
    r.lemma_multiset_has_no_duplicates();
    r.to_multiset_ensures();
}

} // verus!
