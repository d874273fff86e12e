//! A Connect Four engine for a chat bot: the board and its rules, the game
//! session as a state machine, the bot's commands and its score arithmetic.
use vstd::prelude::*;

pub mod board;
pub mod command;
pub mod ledger;
pub mod play;
pub mod session;
pub mod text;

verus! {

} // verus!
