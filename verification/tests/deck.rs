use blackjack::card::Card;
use blackjack::deck::{fresh_deck, new_deck, rank_token, DECK_SIZE, RANKS};
use blackjack::game::Game;

const ALPHABET: [&str; 13] = ["2", "3", "4", "5", "6", "7", "8", "9", "10", "J", "Q", "K", "A"];

fn occurrences(cards: &[Card], token: &str) -> usize {
    cards.iter().filter(|c| c.as_str() == token).count()
}

#[test]
fn thirteen_ranks_in_order() {
    assert_eq!(RANKS, 13);
    for (i, token) in ALPHABET.iter().enumerate() {
        assert_eq!(rank_token(i), *token);
    }
}

#[test]
fn fresh_deck_is_four_runs_of_the_ranks() {
    let deck = fresh_deck();
    assert_eq!(DECK_SIZE, 52);
    assert_eq!(deck.len(), 52);
    for (i, card) in deck.iter().enumerate() {
        assert_eq!(card, ALPHABET[i % 13]);
    }
}

#[test]
fn shuffled_deck_holds_each_rank_four_times() {
    for _ in 0..20 {
        let deck = new_deck();
        assert_eq!(deck.len(), 52);
        for token in ALPHABET {
            assert_eq!(occurrences(&deck, token), 4, "{}", token);
        }
    }
}

#[test]
fn shuffled_deck_is_not_in_standard_order() {
    let fresh = fresh_deck();
    let mut moved = 0;
    for _ in 0..5 {
        if new_deck() != fresh {
            moved += 1;
        }
    }
    assert!(moved >= 4);
}

#[test]
fn two_shuffles_differ() {
    let decks: Vec<Vec<Card>> = (0..5).map(|_| new_deck()).collect();
    let mut different = 0;
    for i in 0..decks.len() {
        for j in (i + 1)..decks.len() {
            if decks[i] != decks[j] {
                different += 1;
            }
        }
    }
    assert!(different >= 9);
}

#[test]
fn new_game_has_empty_hands_and_a_full_deck() {
    let game = Game::new();
    assert!(game.player_cards.is_empty());
    assert!(game.dealer_cards.is_empty());
    assert_eq!(game.card2use.len(), 52);
    for token in ALPHABET {
        assert_eq!(occurrences(&game.card2use, token), 4);
    }
}

#[test]
fn new_game_is_shuffled() {
    let fresh = fresh_deck();
    let mut moved = 0;
    for _ in 0..5 {
        if Game::new().card2use != fresh {
            moved += 1;
        }
    }
    assert!(moved >= 4);
}

#[test]
fn cards_are_conserved_through_a_round() {
    for _ in 0..50 {
        let mut game = Game::new();
        let count = |g: &Game| g.player_cards.len() + g.dealer_cards.len() + g.card2use.len();
        let per_rank = |g: &Game, t: &str| {
            occurrences(&g.player_cards, t) + occurrences(&g.dealer_cards, t) + occurrences(&g.card2use, t)
        };
        assert_eq!(game.init_game(), Ok(()));
        assert_eq!(count(&game), 52);
        let mut hits = 0;
        while hits < 3 && game.sum_of(&game.player_cards).unwrap() < 15 {
            game.hit().unwrap();
            hits += 1;
            assert_eq!(count(&game), 52);
        }
        game.stand().unwrap();
        assert_eq!(count(&game), 52);
        for token in ALPHABET {
            assert_eq!(per_rank(&game, token), 4);
        }
        assert!(game.sum_of(&game.dealer_cards).unwrap() >= 17);
    }
}

#[test]
fn game_on_a_given_deck() {
    let deck: Vec<Card> = vec!["K".to_string(), "2".to_string()];
    let game = Game::with_deck(deck.clone());
    assert!(game.player_cards.is_empty());
    assert!(game.dealer_cards.is_empty());
    assert_eq!(game.card2use, deck);
}
