use vstd::prelude::*;

use crate::text::{
    contains, digits_value, first_number, first_number_of, has_infix, lemma_first_number_digits,
    lower_of, lowercase, small_value,
};

verus! {

/// What a chat message asks of the bot.
#[derive(Clone, Copy, PartialEq, Eq, Debug, Structural)]
pub enum Command {
    /// Start a game between the author and the first user mentioned.
    Start { initiator: u64, invited: u64 },
    /// A game was asked for, but nobody was mentioned to play against.
    PlayAlone,
    /// Show the author's score.
    Score,
    /// Gamble on this digit.
    Gamble(i64),
    /// A gamble on a number above 9.
    GambleOutOfRange,
    /// A gamble without a number.
    GambleWithoutNumber,
    /// Not a command.
    Ignore,
}

/// The command in a message from `author` with text `content` that mentions
/// `first_mention` first. The phrases are found in any case, and the first
/// of "hamis start", "hamis score", "hamis gamble" that occurs decides.
pub open spec fn command_of(author: u64, content: Seq<char>, first_mention: Option<u64>) -> Command {
    let l = lower_of(content);
    if has_infix(l, "hamis start"@) {
        match first_mention {
            None => Command::PlayAlone,
            Some(m) => Command::Start { initiator: author, invited: m },
        }
    } else if has_infix(l, "hamis score"@) {
        Command::Score
    } else if has_infix(l, "hamis gamble"@) {
        match first_number(content) {
            None => Command::GambleWithoutNumber,
            Some(d) => if digits_value(d) <= 9 {
                Command::Gamble(digits_value(d) as i64)
            } else {
                Command::GambleOutOfRange
            },
        }
    } else {
        Command::Ignore
    }
}

/// Reads the command in a message from `author` with text `content` whose
/// first mention, if any, is `first_mention`.
pub fn parse_command(author: u64, content: &str, first_mention: Option<u64>) -> (c: Command)
    ensures
        c == command_of(author, content@, first_mention),
{
    let lower = lowercase(content);
    if contains(lower.as_str(), "hamis start") {
        match first_mention {
            None => Command::PlayAlone,
            Some(m) => Command::Start { initiator: author, invited: m },
        }
    } else if contains(lower.as_str(), "hamis score") {
        Command::Score
    } else if contains(lower.as_str(), "hamis gamble") {
        proof {
            lemma_first_number_digits(content@);
        }
        match first_number_of(content) {
            None => Command::GambleWithoutNumber,
            Some(d) => match small_value(d.as_str(), 9) {
                Some(v) => Command::Gamble(v as i64),
                None => Command::GambleOutOfRange,
            },
        }
    } else {
        Command::Ignore
    }
}

} // verus!
