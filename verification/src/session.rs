//! One command of a conversation: from the stored record and the command to
//! the reply, the outcome and what is to be stored next.

use crate::card::{score, Token};
use crate::deck::standard_deck;
use crate::error::GameError;
use crate::game::{
    lemma_complete_table, lemma_moves_keep_cards, Game, GameEnding, HitOutcome, Table,
};
use crate::record::{Record, RecordView};
use crate::text::same_text;
use vstd::prelude::*;

verus! {

/// Said to the player who lost the round.
pub const WINNER_MSG: &'static str =
    "Haha! I can't believe it! Looks like I completely crushed you, \
     Don't worry, though, it's all in good fun. Maybe next time you'll stand a \
     chance against my unbeatable skills. Until then, enjoy the taste of defeat!";

/// Said to the player who won the round.
pub const LOSER_MSG: &'static str =
    "Alright, alright, you got me this time! \
     I'll begrudgingly admit it, my friend you beat me fair and square. \
     I'll be back for a rematch soon. Consider yourself lucky, my friend!";

/// Said when the round is tied.
pub const TIE_MSG: &'static str =
    "Ha! It's a tie, my friend! I must say, it's quite a \
     rare occurrence. Shall we go at it again? ";

/// The commands that a player has during a round.
pub const HELP_MSG: &'static str =
    "There are 3 options for you: \n\
     1. By saying \"hit\", you can have another card\n\
     2. By saying \"stand\", you will take no more cards, so I will reveal the result.\n\
     3. By saying \"status\", you can know what cards in your hand as well as my face-up card. \n\
     4. By saying \"help\" or something else, you will see this help message.";

/// The rules, told at the start of a round.
pub const INTRO_MSG: &'static str =
    "Let me introduce the rule of this game for you:\n\
     1. Cards 1~10 is at their face value. Face card (J, Q, K) count as 10 points. The Card \"A\" counts 11 points. \n\
     2. First I will give each of us two cards and one of mine is face-down;\n\
     3. After that, you can take another card by saying \"hit\" for many times \
     until you stop by saying \"stand\". \n\
     4. If your point is beyond 21 after a hit, you lose immediately\n\
     5. After you \"stand\", I will reveal the face-down card and take card until my point goes beyond 17. \n\
     6. If your point is less than 21 and greater than mine, or my point is greater than 21, you are the winner. \n\
     7. If my point is less than 21 and greater than yours, I win. (You will lose in step 3 if yours is greater than 21.)\n\
     8. In other situations, it's a tie.";

/// Said to the player whose first two cards make twenty-one.
pub const BLACKJACK_MSG: &'static str =
    "I cannot believe it you got BLACKJACK!!!! You are so lucky this time! \n\
     Do you want another try? You may not be so lucky next time.";

/// What the player asked for.
#[derive(Clone, Copy, Debug, PartialEq, Eq, Structural)]
pub enum Command {
    /// Start a round.
    NewGame,
    Hit,
    Stand,
    Status,
    Help,
    /// Anything else.
    Unknown,
}

/// Where the round stands after a command.
#[derive(Clone, Copy, Debug, PartialEq, Eq, Structural)]
pub enum Outcome {
    /// No round is under way and the command starts none.
    NoActiveGame,
    /// The round goes on: it is the player's turn.
    PlayerTurn,
    /// The round is over.
    Finished(GameEnding),
    /// The round was ended by an error.
    Failed(GameError),
}

/// What is to be done with the stored record.
#[derive(Clone, Debug, PartialEq, Eq)]
pub enum StoreAction {
    /// Leave the store as it is.
    Keep,
    /// Store this record in place of what is there.
    Save(Record),
    /// Delete what is stored.
    Clear,
}

/// The mathematical view of a store action.
#[verifier::ext_equal]
pub enum StoreActionView {
    Keep,
    Save(RecordView),
    Clear,
}

impl View for StoreAction {
    type V = StoreActionView;

    open spec fn view(&self) -> StoreActionView {
        match self {
            StoreAction::Keep => StoreActionView::Keep,
            StoreAction::Save(record) => StoreActionView::Save(record@),
            StoreAction::Clear => StoreActionView::Clear,
        }
    }
}

/// The answer to one command.
#[derive(Clone, Debug, PartialEq, Eq)]
pub struct Reply {
    /// What is said to the player, in the order in which it is to be sent.
    pub messages: Vec<String>,
    /// What is to be done with the stored record.
    pub action: StoreAction,
    /// Where the round stands now.
    pub outcome: Outcome,
}

/// The mathematical view of a reply.
#[verifier::ext_equal]
pub struct ReplyView {
    pub messages: Seq<Seq<char>>,
    pub action: StoreActionView,
    pub outcome: Outcome,
}

impl View for Reply {
    type V = ReplyView;

    open spec fn view(&self) -> ReplyView {
        ReplyView {
            messages: self.messages.deep_view(),
            action: self.action@,
            outcome: self.outcome,
        }
    }
}

impl ReplyView {
    /// Whether the store action fits the outcome: a record is saved while the
    /// round goes on and only then, a round that is over or has failed leaves
    /// nothing stored, and the store is left alone only when there is no round.
    pub open spec fn settled(self) -> bool {
        &&& self.action is Save <==> self.outcome is PlayerTurn
        &&& self.action is Clear <==> (self.outcome is Finished || self.outcome is Failed)
        &&& self.action is Keep <==> self.outcome is NoActiveGame
    }
}

/// The command that a word stands for. The word is taken as it is: in lower
/// case and without blanks around it.
pub open spec fn command_of(word: Seq<char>) -> Command {
    if word == "blackjack"@ {
        Command::NewGame
    } else if word == "hit"@ {
        Command::Hit
    } else if word == "stand"@ {
        Command::Stand
    } else if word == "status"@ {
        Command::Status
    } else if word == "help"@ {
        Command::Help
    } else {
        Command::Unknown
    }
}

/// The text in lower case, as `str::to_lowercase` gives it.
pub uninterp spec fn lowercased(text: Seq<char>) -> Seq<char>;

/// The text without the white space at its two ends, as `str::trim` gives it.
pub uninterp spec fn trimmed(text: Seq<char>) -> Seq<char>;

/// What the player is told when the round is ended by an error.
pub open spec fn failure_text(error: GameError) -> Seq<char> {
    "There's something wrong and the game will be terminated. Possible Reason: "@ + error.reason()
}

/// The reply that ends the round on an error.
pub open spec fn failure_reply(error: GameError) -> ReplyView {
    ReplyView {
        messages: seq![failure_text(error)],
        action: StoreActionView::Clear,
        outcome: Outcome::Failed(error),
    }
}

/// The reply to a command that finds no round under way and starts none:
/// nothing is said and nothing is stored.
pub open spec fn no_reply() -> ReplyView {
    ReplyView {
        messages: Seq::empty(),
        action: StoreActionView::Keep,
        outcome: Outcome::NoActiveGame,
    }
}

/// The reply that says `text` and shows the table under it. The table is
/// stored if the round goes on. If the table cannot be shown, because a hand
/// holds a token that is no rank, the round fails on that.
pub open spec fn told(table: Table, text: Seq<char>, outcome: Outcome) -> ReplyView {
    match table.status() {
        Ok(status) => ReplyView {
            messages: seq![text + "\n\n Current Status: \n"@ + status],
            action: if outcome is PlayerTurn {
                StoreActionView::Save(table.record())
            } else {
                StoreActionView::Clear
            },
            outcome: outcome,
        },
        Err(e) => failure_reply(e),
    }
}

/// The reply to a command given during a round.
pub open spec fn reply_to(stored: RecordView, command: Command) -> ReplyView {
    let table = stored.table();
    match command {
        Command::Hit => match table.hit().1 {
            Ok(HitOutcome::CONTINUE) => told(table.hit().0, "Order received."@, Outcome::PlayerTurn),
            Ok(HitOutcome::BUST) => told(
                table.hit().0,
                WINNER_MSG@,
                Outcome::Finished(GameEnding::DealerWin),
            ),
            Err(e) => told(table.hit().0, failure_text(e), Outcome::Failed(e)),
        },
        Command::Stand => match table.stand().1 {
            Ok(GameEnding::PlayerWin) => told(
                table.stand().0,
                LOSER_MSG@,
                Outcome::Finished(GameEnding::PlayerWin),
            ),
            Ok(GameEnding::DealerWin) => told(
                table.stand().0,
                WINNER_MSG@,
                Outcome::Finished(GameEnding::DealerWin),
            ),
            Ok(GameEnding::Tie) => told(
                table.stand().0,
                TIE_MSG@,
                Outcome::Finished(GameEnding::Tie),
            ),
            Err(e) => told(table.stand().0, failure_text(e), Outcome::Failed(e)),
        },
        Command::Help => told(table, HELP_MSG@, Outcome::PlayerTurn),
        Command::Status => told(table, "So soon you forgot your card?"@, Outcome::PlayerTurn),
        _ => told(table, "I don't know what you mean. \n"@ + HELP_MSG@, Outcome::PlayerTurn),
    }
}

/// The reply that opens a round on the given table: the opening hands are
/// dealt and shown with the rules. Two opening cards that make twenty-one end
/// the round at once in the player's favour.
pub open spec fn opening(table: Table) -> ReplyView {
    let next = table.init().0;
    match table.init().1 {
        Err(e) => failure_reply(e),
        Ok(_) => match next.status() {
            Err(e) => failure_reply(e),
            Ok(status) => {
                let welcome = "Ok, let's begin. \n\n"@ + INTRO_MSG@ + "\n\nFor now,\n"@ + status
                    + "\n\n"@ + HELP_MSG@;
                if score(next.player) == 21 {
                    ReplyView {
                        messages: seq![welcome, BLACKJACK_MSG@],
                        action: StoreActionView::Clear,
                        outcome: Outcome::Finished(GameEnding::PlayerWin),
                    }
                } else {
                    ReplyView {
                        messages: seq![welcome],
                        action: StoreActionView::Save(next.record()),
                        outcome: Outcome::PlayerTurn,
                    }
                }
            },
        },
    }
}

/// A table on which nothing has been dealt from the given deck.
pub open spec fn undealt(deck: Seq<Token>) -> Table {
    Table { dealer: Seq::empty(), player: Seq::empty(), deck: deck }
}

/// Whatever the command and whatever was stored, the store action fits the
/// outcome. In particular a round that is over is never stored again, so that
/// no later command can reach it.
pub proof fn lemma_replies_settled(stored: RecordView, command: Command, table: Table)
    ensures
        reply_to(stored, command).settled(),
        opening(table).settled(),
        no_reply().settled(),
{
}

/// Calls `str::to_lowercase`. Nothing is claimed of the text that comes back
/// but that it depends on the text given alone.
#[verifier::external_body]
fn lowercase(text: &str) -> (lower: String)
    ensures
        lower@ == lowercased(text@),
{
    text.to_lowercase()
}

/// Calls `str::trim`. Nothing is claimed of the text that comes back but that
/// it depends on the text given alone.
#[verifier::external_body]
fn trim(text: &str) -> (inner: &str)
    ensures
        inner@ == trimmed(text@),
{
    text.trim()
}

/// The command that a message stands for: the message is put in lower case,
/// the white space around it is dropped, and what is left is looked up.
pub fn classify(message: &str) -> (command: Command)
    ensures
        command == command_of(trimmed(lowercased(message@))),
{
    let lower = lowercase(message);
    command_named(trim(lower.as_str()))
}

/// The command that a word stands for, the word taken as it is.
pub fn command_named(word: &str) -> (command: Command)
    ensures
        command == command_of(word@),
{
    if same_text(word, "blackjack") {
        Command::NewGame
    } else if same_text(word, "hit") {
        Command::Hit
    } else if same_text(word, "stand") {
        Command::Stand
    } else if same_text(word, "status") {
        Command::Status
    } else if same_text(word, "help") {
        Command::Help
    } else {
        Command::Unknown
    }
}

/// A reply with one message.
fn single(text: String, action: StoreAction, outcome: Outcome) -> (reply: Reply)
    ensures
        reply@ == (ReplyView { messages: seq![text@], action: action@, outcome: outcome }),
{
    let mut messages: Vec<String> = Vec::new();
    messages.push(text);
    let reply = Reply { messages, action, outcome };
    assert(reply.messages.deep_view() =~= seq![text@]);
    reply
}

/// The reply that ends the round on an error: the player is told the reason
/// and nothing stays stored.
pub fn failure(error: GameError) -> (reply: Reply)
    ensures
        reply@ == failure_reply(error),
{
    let mut text = "There's something wrong and the game will be terminated. Possible Reason: ".to_owned();
    text.append(error.message());
    single(text, StoreAction::Clear, Outcome::Failed(error))
}

/// The reply that says `text` and shows the game's table under it.
fn tell(game: Game, text: String, outcome: Outcome) -> (reply: Reply)
    ensures
        reply@ == told(game@, text@, outcome),
{
    match game.status() {
        Ok(status) => {
            let mut text = text;
            text.append("\n\n Current Status: \n");
            text.append(status.as_str());
            match outcome {
                Outcome::PlayerTurn => single(text, StoreAction::Save(game.into_record()), outcome),
                _ => single(text, StoreAction::Clear, outcome),
            }
        },
        Err(e) => failure(e),
    }
}

/// What the player is told when the round is ended by an error.
fn failure_message(error: GameError) -> (text: String)
    ensures
        text@ == failure_text(error),
{
    let mut text = "There's something wrong and the game will be terminated. Possible Reason: ".to_owned();
    text.append(error.message());
    text
}

/// Answers a command given during a round, the round taken from its record.
pub fn resume(record: Record, command: Command) -> (reply: Reply)
    ensures
        reply@ == reply_to(record@, command),
        reply@.settled(),
{
    let mut game = Game::from_record(record);
    match command {
        Command::Hit => match game.hit() {
            Ok(HitOutcome::CONTINUE) => tell(game, "Order received.".to_owned(), Outcome::PlayerTurn),
            Ok(HitOutcome::BUST) => tell(
                game,
                WINNER_MSG.to_owned(),
                Outcome::Finished(GameEnding::DealerWin),
            ),
            Err(e) => tell(game, failure_message(e), Outcome::Failed(e)),
        },
        Command::Stand => match game.stand() {
            Ok(GameEnding::PlayerWin) => tell(
                game,
                LOSER_MSG.to_owned(),
                Outcome::Finished(GameEnding::PlayerWin),
            ),
            Ok(GameEnding::DealerWin) => tell(
                game,
                WINNER_MSG.to_owned(),
                Outcome::Finished(GameEnding::DealerWin),
            ),
            Ok(GameEnding::Tie) => tell(game, TIE_MSG.to_owned(), Outcome::Finished(GameEnding::Tie)),
            Err(e) => tell(game, failure_message(e), Outcome::Failed(e)),
        },
        Command::Help => tell(game, HELP_MSG.to_owned(), Outcome::PlayerTurn),
        Command::Status => tell(game, "So soon you forgot your card?".to_owned(), Outcome::PlayerTurn),
        _ => {
            let mut text = "I don't know what you mean. \n".to_owned();
            text.append(HELP_MSG);
            tell(game, text, Outcome::PlayerTurn)
        },
    }
}

/// Opens a round on the given game: deals the opening hands and shows them
/// with the rules.
pub fn begin(game: Game) -> (reply: Reply)
    ensures
        reply@ == opening(game@),
        reply@.settled(),
{
    let mut game = game;
    match game.init_game() {
        Err(e) => failure(e),
        Ok(_) => match game.status() {
            Err(e) => failure(e),
            Ok(status) => {
                let mut welcome = "Ok, let's begin. \n\n".to_owned();
                welcome.append(INTRO_MSG);
                welcome.append("\n\nFor now,\n");
                welcome.append(status.as_str());
                welcome.append("\n\n");
                welcome.append(HELP_MSG);
                let player_total = game.sum_of(&game.player_cards);
                match player_total {
                    Ok(21) => {
                        let mut messages: Vec<String> = Vec::new();
                        messages.push(welcome);
                        messages.push(BLACKJACK_MSG.to_owned());
                        let reply = Reply {
                            messages,
                            action: StoreAction::Clear,
                            outcome: Outcome::Finished(GameEnding::PlayerWin),
                        };
                        assert(reply.messages.deep_view() =~= seq![welcome@, BLACKJACK_MSG@]);
                        reply
                    },
                    _ => single(welcome, StoreAction::Save(game.into_record()), Outcome::PlayerTurn),
                }
            },
        },
    }
}

/// Answers one command. With a stored record the command is played on the
/// round it holds. Without one, the command to start a round opens one on a
/// freshly shuffled deck, and any other command is passed over.
pub fn respond(stored: Option<Record>, command: Command) -> (reply: Reply)
    ensures
        reply@.settled(),
        match stored {
            Some(record) => reply@ == reply_to(record@, command),
            None => if command == Command::NewGame {
                &&& exists|deck: Seq<Token>|
                    deck.to_multiset() == standard_deck().to_multiset() && reply@ == opening(
                        #[trigger] undealt(deck),
                    )
                &&& reply.outcome is PlayerTurn || reply.outcome == Outcome::Finished(
                    GameEnding::PlayerWin,
                )
            } else {
                reply@ == no_reply()
            },
        },
{
    match stored {
        Some(record) => resume(record, command),
        None => match command {
            Command::NewGame => {
                let game = Game::new();
                proof {
                    assert(game@ =~= undealt(game@.deck));
                    lemma_moves_keep_cards(game@);
                    lemma_complete_table(game@.init().0);
                }
                begin(game)
            },
            _ => Reply {
                messages: Vec::new(),
                action: StoreAction::Keep,
                outcome: Outcome::NoActiveGame,
            },
        },
    }
}

} // verus!
