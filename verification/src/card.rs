//! Rank tokens and what a hand of them is worth.

use vstd::prelude::*;
use vstd::seq_lib::*;

verus! {

/// A card is its rank token; suits play no part in the game.
pub type Card = String;

/// The characters of a rank token.
pub type Token = Seq<char>;

/// The points a rank token counts for: the numerals `2` to `10` at face
/// value, `J`, `Q` and `K` ten, `A` eleven. A token that names no rank has no value.
pub open spec fn rank_value(token: Token) -> Option<nat> {
    if token.len() == 1 {
        let c = token[0];
        if c == '2' {
            Some(2)
        } else if c == '3' {
            Some(3)
        } else if c == '4' {
            Some(4)
        } else if c == '5' {
            Some(5)
        } else if c == '6' {
            Some(6)
        } else if c == '7' {
            Some(7)
        } else if c == '8' {
            Some(8)
        } else if c == '9' {
            Some(9)
        } else if c == 'J' || c == 'Q' || c == 'K' {
            Some(10)
        } else if c == 'A' {
            Some(11)
        } else {
            None
        }
    } else if token.len() == 2 && token[0] == '1' && token[1] == '0' {
        Some(10)
    } else {
        None
    }
}

/// Whether the token is one of the thirteen ranks.
pub open spec fn is_rank(token: Token) -> bool {
    rank_value(token) is Some
}

/// What the token adds to a hand's total; a token outside the alphabet adds nothing.
pub open spec fn points(token: Token) -> nat {
    match rank_value(token) {
        Some(value) => value,
        None => 0,
    }
}

/// Whether every token of the hand is a rank.
pub open spec fn all_ranks(hand: Seq<Token>) -> bool {
    forall|i: int| 0 <= i < hand.len() ==> is_rank(#[trigger] hand[i])
}

/// The total of a hand: the sum of its cards' points, zero for the empty hand.
pub open spec fn score(hand: Seq<Token>) -> nat
    decreases hand.len(),
{
    if hand.len() == 0 {
        0
    } else {
        score(hand.drop_last()) + points(hand.last())
    }
}

/// The points of one card, or `None` if its token names no rank.
pub fn card_value(card: &Card) -> (value: Option<u8>)
    ensures
        match value {
            Some(v) => rank_value(card@) == Some(v as nat),
            None => rank_value(card@) is None,
        },
{
    let token = card.as_str();
    let length = token.unicode_len();
    if length == 1 {
        let c = token.get_char(0);
        match c {
            '2' => Some(2),
            '3' => Some(3),
            '4' => Some(4),
            '5' => Some(5),
            '6' => Some(6),
            '7' => Some(7),
            '8' => Some(8),
            '9' => Some(9),
            'J' | 'Q' | 'K' => Some(10),
            'A' => Some(11),
            _ => None,
        }
    } else if length == 2 {
        let first = token.get_char(0);
        let second = token.get_char(1);
        if first == '1' && second == '0' {
            Some(10)
        } else {
            None
        }
    } else {
        None
    }
}

/// The tokens of a hand that got one card at its end.
pub proof fn lemma_hand_push(before: Vec<Card>, after: Vec<Card>, card: Card)
    requires
        after@ == before@.push(card),
    ensures
        after.deep_view() == before.deep_view().push(card@),
{
    assert(after.deep_view() =~= before.deep_view().push(card@));
}

/// Taking one card out of a hand lowers the total by that card's points.
pub proof fn lemma_score_remove(hand: Seq<Token>, i: int)
    requires
        0 <= i < hand.len(),
    ensures
        score(hand) == score(hand.remove(i)) + points(hand[i]),
    decreases hand.len(),
{
    if i == hand.len() - 1 {
        assert(hand.remove(i) =~= hand.drop_last());
    } else {
        lemma_score_remove(hand.drop_last(), i);
        assert(hand.remove(i).drop_last() =~= hand.drop_last().remove(i));
        assert(hand.remove(i).last() == hand.last());
    }
}

/// The total of a hand does not depend on the order of its cards: two hands
/// that hold the same cards, each as often as the other, score the same.
pub proof fn lemma_score_permutation(a: Seq<Token>, b: Seq<Token>)
    requires
        a.to_multiset() == b.to_multiset(),
    ensures
        score(a) == score(b),
    decreases a.len(),
{
    broadcast use group_to_multiset_ensures;

    if a.len() == 0 {
        assert(a.to_multiset().len() == a.len());
        assert(b.to_multiset().len() == b.len());
    } else {
        let x = a.last();
        assert(a.contains(x));
        assert(b.to_multiset().count(x) > 0);
        assert(b.contains(x));
        let i = choose|i: int| 0 <= i < b.len() && b[i] == x;
        assert(a.drop_last() =~= a.remove(a.len() - 1));
        assert(a.drop_last().to_multiset() =~= b.remove(i).to_multiset());
        lemma_score_permutation(a.drop_last(), b.remove(i));
        lemma_score_remove(b, i);
    }
}

/// Whether a hand holds only ranks does not depend on the order of its cards.
pub proof fn lemma_all_ranks_permutation(a: Seq<Token>, b: Seq<Token>)
    requires
        a.to_multiset() == b.to_multiset(),
    ensures
        all_ranks(a) == all_ranks(b),
{
    broadcast use group_to_multiset_ensures;

    if all_ranks(a) {
        assert forall|i: int| 0 <= i < b.len() implies is_rank(#[trigger] b[i]) by {
            assert(b.contains(b[i]));
            assert(a.to_multiset().count(b[i]) > 0);
            assert(a.contains(b[i]));
        }
    }
    if all_ranks(b) {
        assert forall|i: int| 0 <= i < a.len() implies is_rank(#[trigger] a[i]) by {
            assert(a.contains(a[i]));
            assert(b.to_multiset().count(a[i]) > 0);
            assert(b.contains(a[i]));
        }
    }
}

} // verus!
