use blackjack::card::Card;
use blackjack::deck::fresh_deck;
use blackjack::error::GameError;
use blackjack::game::{Game, GameEnding};
use blackjack::record::Record;
use blackjack::session::{
    begin, classify, command_named, failure, respond, resume, Command, Outcome, Reply, StoreAction,
    BLACKJACK_MSG, HELP_MSG, INTRO_MSG, LOSER_MSG, TIE_MSG, WINNER_MSG,
};

fn cards(tokens: &[&str]) -> Vec<Card> {
    tokens.iter().map(|t| t.to_string()).collect()
}

fn record(dealer: &[&str], player: &[&str], deck: &[&str]) -> Record {
    Record { dealer_cards: cards(dealer), player_cards: cards(player), card2use: cards(deck) }
}

const FAILURE: &str = "There's something wrong and the game will be terminated. Possible Reason: ";

#[test]
fn fixed_texts() {
    assert_eq!(
        WINNER_MSG,
        "Haha! I can't believe it! Looks like I completely crushed you, Don't worry, though, it's all in good fun. Maybe next time you'll stand a chance against my unbeatable skills. Until then, enjoy the taste of defeat!"
    );
    assert_eq!(
        LOSER_MSG,
        "Alright, alright, you got me this time! I'll begrudgingly admit it, my friend you beat me fair and square. I'll be back for a rematch soon. Consider yourself lucky, my friend!"
    );
    assert_eq!(
        TIE_MSG,
        "Ha! It's a tie, my friend! I must say, it's quite a rare occurrence. Shall we go at it again? "
    );
    assert_eq!(
        HELP_MSG,
        "There are 3 options for you: \n1. By saying \"hit\", you can have another card\n2. By saying \"stand\", you will take no more cards, so I will reveal the result.\n3. By saying \"status\", you can know what cards in your hand as well as my face-up card. \n4. By saying \"help\" or something else, you will see this help message."
    );
    assert_eq!(
        BLACKJACK_MSG,
        "I cannot believe it you got BLACKJACK!!!! You are so lucky this time! \nDo you want another try? You may not be so lucky next time."
    );
    assert!(INTRO_MSG.starts_with("Let me introduce the rule of this game for you:\n1. Cards 1~10 is at their face value."));
    assert!(INTRO_MSG.contains("by saying \"hit\" for many times until you stop by saying \"stand\". \n4. If your point"));
    assert!(INTRO_MSG.ends_with("\n8. In other situations, it's a tie."));
    assert_eq!(INTRO_MSG.lines().count(), 9);
}

#[test]
fn words_name_commands() {
    assert_eq!(command_named("blackjack"), Command::NewGame);
    assert_eq!(command_named("hit"), Command::Hit);
    assert_eq!(command_named("stand"), Command::Stand);
    assert_eq!(command_named("status"), Command::Status);
    assert_eq!(command_named("help"), Command::Help);
    assert_eq!(command_named(""), Command::Unknown);
    assert_eq!(command_named("hit me"), Command::Unknown);
    assert_eq!(command_named("HIT"), Command::Unknown);
    assert_eq!(command_named(" hit"), Command::Unknown);
}

#[test]
fn messages_are_lowercased_and_trimmed() {
    assert_eq!(classify("hit"), Command::Hit);
    assert_eq!(classify("HIT"), Command::Hit);
    assert_eq!(classify("  Hit \n"), Command::Hit);
    assert_eq!(classify("\tSTAND"), Command::Stand);
    assert_eq!(classify("BlackJack  "), Command::NewGame);
    assert_eq!(classify(" Status"), Command::Status);
    assert_eq!(classify("HELP\r\n"), Command::Help);
    assert_eq!(classify(""), Command::Unknown);
    assert_eq!(classify("   "), Command::Unknown);
    assert_eq!(classify("h it"), Command::Unknown);
    assert_eq!(classify("double down"), Command::Unknown);
}

#[test]
fn hit_that_goes_on_saves_the_round() {
    let reply = resume(record(&["4"], &["2", "3"], &["5", "6"]), Command::Hit);
    assert_eq!(
        reply,
        Reply {
            messages: vec![
                "Order received.\n\n Current Status: \nCards in your hand: 2, 3, 5 (Total Point: 10). \nCards (face-up) in my hand: 4 (Total Point: 4)"
                    .to_string()
            ],
            action: StoreAction::Save(record(&["4"], &["2", "3", "5"], &["6"])),
            outcome: Outcome::PlayerTurn,
        }
    );
}

#[test]
fn hit_that_busts_clears_the_round() {
    let reply = resume(record(&["4"], &["10", "9"], &["5", "6"]), Command::Hit);
    assert_eq!(
        reply,
        Reply {
            messages: vec![format!(
                "{}\n\n Current Status: \nCards in your hand: 10, 9, 5 (Total Point: 24). \nCards (face-up) in my hand: 4 (Total Point: 4)",
                WINNER_MSG
            )],
            action: StoreAction::Clear,
            outcome: Outcome::Finished(GameEnding::DealerWin),
        }
    );
}

#[test]
fn hit_on_an_empty_deck_ends_the_round() {
    let reply = resume(record(&["4"], &["10", "9"], &[]), Command::Hit);
    assert_eq!(
        reply,
        Reply {
            messages: vec![format!(
                "{}Insufficient Cards\n\n Current Status: \nCards in your hand: 10, 9 (Total Point: 19). \nCards (face-up) in my hand: 4 (Total Point: 4)",
                FAILURE
            )],
            action: StoreAction::Clear,
            outcome: Outcome::Failed(GameError::DeckExhausted),
        }
    );
}

#[test]
fn stand_won_by_the_player() {
    let reply = resume(record(&["10"], &["10", "9"], &["7", "5"]), Command::Stand);
    assert_eq!(
        reply,
        Reply {
            messages: vec![format!(
                "{}\n\n Current Status: \nCards in your hand: 10, 9 (Total Point: 19). \nCards (face-up) in my hand: 10, 7 (Total Point: 17)",
                LOSER_MSG
            )],
            action: StoreAction::Clear,
            outcome: Outcome::Finished(GameEnding::PlayerWin),
        }
    );
}

#[test]
fn stand_won_by_the_dealer() {
    let reply = resume(record(&["10"], &["10", "9"], &["6", "5"]), Command::Stand);
    assert_eq!(
        reply,
        Reply {
            messages: vec![format!(
                "{}\n\n Current Status: \nCards in your hand: 10, 9 (Total Point: 19). \nCards (face-up) in my hand: 10, 6, 5 (Total Point: 21)",
                WINNER_MSG
            )],
            action: StoreAction::Clear,
            outcome: Outcome::Finished(GameEnding::DealerWin),
        }
    );
}

#[test]
fn stand_tied() {
    let reply = resume(record(&["10"], &["10", "9"], &["9", "5"]), Command::Stand);
    assert_eq!(
        reply,
        Reply {
            messages: vec![format!(
                "{}\n\n Current Status: \nCards in your hand: 10, 9 (Total Point: 19). \nCards (face-up) in my hand: 10, 9 (Total Point: 19)",
                TIE_MSG
            )],
            action: StoreAction::Clear,
            outcome: Outcome::Finished(GameEnding::Tie),
        }
    );
}

#[test]
fn stand_on_an_empty_deck_ends_the_round() {
    let reply = resume(record(&["10"], &["10", "9"], &[]), Command::Stand);
    assert_eq!(
        reply,
        Reply {
            messages: vec![format!(
                "{}Insufficient Cards\n\n Current Status: \nCards in your hand: 10, 9 (Total Point: 19). \nCards (face-up) in my hand: 10 (Total Point: 10)",
                FAILURE
            )],
            action: StoreAction::Clear,
            outcome: Outcome::Failed(GameError::DeckExhausted),
        }
    );
}

#[test]
fn help_keeps_the_round_as_it_is() {
    let stored = record(&["4"], &["2", "3"], &["5", "6"]);
    let reply = resume(stored.clone(), Command::Help);
    assert_eq!(
        reply,
        Reply {
            messages: vec![format!(
                "{}\n\n Current Status: \nCards in your hand: 2, 3 (Total Point: 5). \nCards (face-up) in my hand: 4 (Total Point: 4)",
                HELP_MSG
            )],
            action: StoreAction::Save(stored),
            outcome: Outcome::PlayerTurn,
        }
    );
}

#[test]
fn status_keeps_the_round_as_it_is() {
    let stored = record(&["4"], &["2", "3"], &["5", "6"]);
    let reply = resume(stored.clone(), Command::Status);
    assert_eq!(
        reply,
        Reply {
            messages: vec![
                "So soon you forgot your card?\n\n Current Status: \nCards in your hand: 2, 3 (Total Point: 5). \nCards (face-up) in my hand: 4 (Total Point: 4)"
                    .to_string()
            ],
            action: StoreAction::Save(stored),
            outcome: Outcome::PlayerTurn,
        }
    );
}

#[test]
fn unknown_command_gets_the_help() {
    let stored = record(&["4"], &["2", "3"], &["5", "6"]);
    let expected = Reply {
        messages: vec![format!(
            "I don't know what you mean. \n{}\n\n Current Status: \nCards in your hand: 2, 3 (Total Point: 5). \nCards (face-up) in my hand: 4 (Total Point: 4)",
            HELP_MSG
        )],
        action: StoreAction::Save(stored.clone()),
        outcome: Outcome::PlayerTurn,
    };
    assert_eq!(resume(stored.clone(), Command::Unknown), expected);
    assert_eq!(resume(stored, Command::NewGame), expected);
}

#[test]
fn corrupted_record_ends_the_round() {
    let expected = Reply {
        messages: vec![format!("{}Invalid Card Name", FAILURE)],
        action: StoreAction::Clear,
        outcome: Outcome::Failed(GameError::InvalidRank),
    };
    for command in [Command::Hit, Command::Stand, Command::Help, Command::Status, Command::Unknown, Command::NewGame] {
        assert_eq!(resume(record(&["joker"], &["2", "3"], &["5", "6"]), command), expected);
        assert_eq!(resume(record(&["4"], &["2", "1"], &["5", "6"]), command), expected);
    }
}

#[test]
fn malformed_record_ends_the_round() {
    assert_eq!(
        failure(GameError::MalformedRecord),
        Reply {
            messages: vec![format!("{}Malformed Record", FAILURE)],
            action: StoreAction::Clear,
            outcome: Outcome::Failed(GameError::MalformedRecord),
        }
    );
    assert_eq!(failure(GameError::DeckExhausted).messages, vec![format!("{}Insufficient Cards", FAILURE)]);
}

#[test]
fn round_opens_on_a_known_deck() {
    let reply = begin(Game::with_deck(fresh_deck()));
    let mut left = fresh_deck();
    left.drain(..3);
    assert_eq!(
        reply,
        Reply {
            messages: vec![format!(
                "Ok, let's begin. \n\n{}\n\nFor now,\nCards in your hand: 2, 3 (Total Point: 5). \nCards (face-up) in my hand: 4 (Total Point: 4)\n\n{}",
                INTRO_MSG, HELP_MSG
            )],
            action: StoreAction::Save(Record {
                dealer_cards: cards(&["4"]),
                player_cards: cards(&["2", "3"]),
                card2use: left,
            }),
            outcome: Outcome::PlayerTurn,
        }
    );
}

#[test]
fn opening_twenty_one_ends_the_round_at_once() {
    let reply = begin(Game::with_deck(cards(&["A", "K", "5", "6"])));
    assert_eq!(
        reply,
        Reply {
            messages: vec![
                format!(
                    "Ok, let's begin. \n\n{}\n\nFor now,\nCards in your hand: A, K (Total Point: 21). \nCards (face-up) in my hand: 5 (Total Point: 5)\n\n{}",
                    INTRO_MSG, HELP_MSG
                ),
                BLACKJACK_MSG.to_string(),
            ],
            action: StoreAction::Clear,
            outcome: Outcome::Finished(GameEnding::PlayerWin),
        }
    );
}

#[test]
fn opening_twenty_is_no_blackjack() {
    let reply = begin(Game::with_deck(cards(&["Q", "K", "5", "6"])));
    assert_eq!(reply.outcome, Outcome::PlayerTurn);
    assert_eq!(reply.messages.len(), 1);
    assert_eq!(reply.action, StoreAction::Save(record(&["5"], &["Q", "K"], &["6"])));
}

#[test]
fn round_cannot_open_on_a_short_deck() {
    let expected = Reply {
        messages: vec![format!("{}Insufficient Cards", FAILURE)],
        action: StoreAction::Clear,
        outcome: Outcome::Failed(GameError::DeckExhausted),
    };
    assert_eq!(begin(Game::with_deck(cards(&[]))), expected);
    assert_eq!(begin(Game::with_deck(cards(&["A", "K"]))), expected);
}

#[test]
fn round_cannot_open_on_an_invalid_token() {
    let expected = Reply {
        messages: vec![format!("{}Invalid Card Name", FAILURE)],
        action: StoreAction::Clear,
        outcome: Outcome::Failed(GameError::InvalidRank),
    };
    assert_eq!(begin(Game::with_deck(cards(&["A", "?", "2", "3"]))), expected);
    assert_eq!(begin(Game::with_deck(cards(&["A", "2", "?", "3"]))), expected);
}

#[test]
fn without_a_round_only_the_trigger_is_answered() {
    for command in [Command::Hit, Command::Stand, Command::Help, Command::Status, Command::Unknown] {
        assert_eq!(
            respond(None, command),
            Reply { messages: vec![], action: StoreAction::Keep, outcome: Outcome::NoActiveGame }
        );
    }
}

#[test]
fn trigger_opens_a_round_on_a_shuffled_deck() {
    for _ in 0..50 {
        let reply = respond(None, Command::NewGame);
        assert!(reply.messages[0].starts_with("Ok, let's begin. \n\nLet me introduce"));
        assert!(reply.messages[0].ends_with(HELP_MSG));
        match reply.outcome {
            Outcome::PlayerTurn => {
                assert_eq!(reply.messages.len(), 1);
                match reply.action {
                    StoreAction::Save(stored) => {
                        assert_eq!(stored.player_cards.len(), 2);
                        assert_eq!(stored.dealer_cards.len(), 1);
                        assert_eq!(stored.card2use.len(), 49);
                    }
                    other => panic!("{:?}", other),
                }
            }
            Outcome::Finished(GameEnding::PlayerWin) => {
                assert_eq!(reply.messages.len(), 2);
                assert_eq!(reply.messages[1], BLACKJACK_MSG);
                assert_eq!(reply.action, StoreAction::Clear);
            }
            other => panic!("{:?}", other),
        }
    }
}

#[test]
fn with_a_round_the_command_is_played_on_it() {
    let stored = record(&["4"], &["2", "3"], &["5", "6"]);
    for command in [Command::Hit, Command::Stand, Command::Help, Command::Status, Command::Unknown, Command::NewGame] {
        assert_eq!(respond(Some(stored.clone()), command), resume(stored.clone(), command));
    }
}

#[test]
fn finished_round_is_never_stored_again() {
    for round in 0..200 {
        let mut stored: Option<Record> = None;
        let mut reply = respond(stored.clone(), Command::NewGame);
        let mut turns = 0;
        loop {
            match &reply.outcome {
                Outcome::PlayerTurn => match &reply.action {
                    StoreAction::Save(next) => stored = Some(next.clone()),
                    other => panic!("{:?}", other),
                },
                Outcome::Finished(_) | Outcome::Failed(_) => {
                    assert_eq!(reply.action, StoreAction::Clear);
                    break;
                }
                Outcome::NoActiveGame => panic!("a round was under way"),
            }
            let command = if (round + turns) % 3 == 0 { Command::Stand } else { Command::Hit };
            reply = respond(stored.clone(), command);
            turns += 1;
            assert!(turns < 30);
        }
        assert_eq!(respond(None, Command::Hit).outcome, Outcome::NoActiveGame);
        assert_eq!(respond(None, Command::Stand).outcome, Outcome::NoActiveGame);
    }
}
