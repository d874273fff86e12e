use vstd::prelude::*;

use crate::board::{connect_4_check, connect_4_turn, print_board, reply_text, Board};
use crate::text::{contains, decimal, decimal_text, has_infix, lower_of, lowercase};

verus! {

/// Where a game stands.
#[derive(Clone, Copy, PartialEq, Eq, Debug, Structural)]
pub enum Phase {
    /// The invited player has not accepted yet.
    AwaitingAcceptance,
    /// The game is on.
    InProgress,
    /// The player with this user id made four in a row.
    Won(u64),
    /// The invited player never accepted.
    Declined,
}

/// What the session waits for next.
#[derive(Clone, Copy, PartialEq, Eq, Debug, Structural)]
pub enum Wait {
    /// A message from this user that says "accept", in any case.
    Acceptance(u64),
    /// The next message from this user: their move.
    Move(u64),
    /// Nothing more: the game is over.
    Nothing,
}

/// What the wait of the session brought.
pub enum Event {
    /// The invited player accepted.
    Accepted,
    /// The wait for acceptance failed.
    AcceptanceFailed,
    /// The player to move sent this text.
    MoveText(String),
    /// The wait for a move failed; the session waits again.
    MoveWaitFailed,
}

/// One game from invitation to its end, as a state machine: the caller
/// performs the wait that `waiting_for` names, hands what came of it to
/// `step`, and sends the messages that `step` returns, in order.
pub struct Session {
    pub phase: Phase,
    pub players: (u64, u64),
    pub board: Option<Board>,
}

/// The announcement of a win by the user `id`.
pub open spec fn victory_text(id: u64) -> Seq<char> {
    "decisive victory for <@"@ + decimal(id as nat) + ">"@
}

/// The announcement that the invitation was not accepted.
pub open spec fn declined_text() -> Seq<char> {
    "Game declined!!!"@
}

/// Whether a message from `author` with text `content` accepts an invitation
/// sent to `invited`.
pub open spec fn accepts(author: u64, content: Seq<char>, invited: u64) -> bool {
    author == invited && has_infix(lower_of(content), "accept"@)
}

/// Whether a message from `author` with text `content` accepts an invitation
/// sent to `invited`: it comes from `invited` and says "accept" in any case.
pub fn is_acceptance(author: u64, content: &str, invited: u64) -> (r: bool)
    ensures
        r == accepts(author, content@, invited),
{
    if author != invited {
        return false;
    }
    let lower = lowercase(content);
    contains(lower.as_str(), "accept")
}

impl Session {
    /// Sessions keep a board exactly while the game is on or won, and that
    /// board is well formed and belongs to the two players.
    pub open spec fn wf(self) -> bool {
        match self.phase {
            Phase::AwaitingAcceptance | Phase::Declined => self.board is None,
            Phase::InProgress | Phase::Won(_) => self.board matches Some(b) && b.wf()
                && b.players == self.players,
        }
    }

    /// What the session waits for in this state.
    pub open spec fn wait_of(self) -> Wait {
        match self.phase {
            Phase::AwaitingAcceptance => Wait::Acceptance(self.players.1),
            Phase::InProgress => Wait::Move(self.board.unwrap().player_to_move()),
            _ => Wait::Nothing,
        }
    }

    /// The session after `e`, and the messages to send, in order.
    pub open spec fn next(self, e: Event) -> (Session, Seq<Seq<char>>) {
        match (self.phase, e) {
            (Phase::AwaitingAcceptance, Event::Accepted) => {
                let b = Board::fresh(self.players.0, self.players.1);
                (Session { phase: Phase::InProgress, board: Some(b), ..self }, seq![b.render()])
            },
            (Phase::AwaitingAcceptance, Event::AcceptanceFailed) => (
                Session { phase: Phase::Declined, ..self },
                seq![declined_text()],
            ),
            (Phase::InProgress, Event::MoveText(t)) => {
                let b = self.board.unwrap();
                let after = b.after_move(t@);
                let reply = reply_text(b.outcome_of(t@), after);
                if after.four_in_a_row() {
                    let mover = b.player_to_move();
                    (
                        Session { phase: Phase::Won(mover), board: Some(after), ..self },
                        seq![reply, victory_text(mover)],
                    )
                } else {
                    (Session { board: Some(after), ..self }, seq![reply])
                }
            },
            _ => (self, Seq::empty()),
        }
    }

    /// A game between `initiator` and `invited`, waiting for `invited` to accept.
    pub fn new(initiator: u64, invited: u64) -> (s: Session)
        ensures
            s.wf(),
            s.phase == Phase::AwaitingAcceptance,
            s.players == (initiator, invited),
    {
        Session { phase: Phase::AwaitingAcceptance, players: (initiator, invited), board: None }
    }

    /// What to wait for next.
    pub fn waiting_for(&self) -> (w: Wait)
        requires
            self.wf(),
        ensures
            w == self.wait_of(),
    {
        match self.phase {
            Phase::AwaitingAcceptance => Wait::Acceptance(self.players.1),
            Phase::InProgress => match &self.board {
                Some(b) => Wait::Move(b.current_player()),
                None => Wait::Nothing,
            },
            _ => Wait::Nothing,
        }
    }

    /// Takes what the last wait brought and returns the messages to send, in order.
    ///
    /// On acceptance the game starts and the empty board is shown; a failed
    /// acceptance ends the session as declined. Each move is answered with
    /// the reply of the board, followed by the victory announcement when it
    /// made four in a row. A failed wait for a move changes nothing. Events
    /// that do not fit the phase are ignored.
    pub fn step(&mut self, e: Event) -> (msgs: Vec<String>)
        requires
            old(self).wf(),
        ensures
            final(self).wf(),
            (*final(self), msgs@.map_values(|m: String| m@)) == old(self).next(e),
    {
        let mut msgs: Vec<String> = Vec::new();
        match (self.phase, e) {
            (Phase::AwaitingAcceptance, Event::Accepted) => {
                let b = Board::new(self.players.0, self.players.1);
                msgs.push(print_board(&b));
                self.phase = Phase::InProgress;
                self.board = Some(b);
            },
            (Phase::AwaitingAcceptance, Event::AcceptanceFailed) => {
                msgs.push(String::from_str("Game declined!!!"));
                self.phase = Phase::Declined;
            },
            (Phase::InProgress, Event::MoveText(t)) => {
                let ghost b0 = self.board.unwrap();
                let mut b = match self.board.take() {
                    Some(b) => b,
                    None => {
                        return msgs;
                    },
                };
                let mover = b.current_player();
                let reply = connect_4_turn(t.as_str(), &mut b);
                msgs.push(reply);
                if connect_4_check(&b) {
                    let mut v = String::from_str("decisive victory for <@");
                    let id = decimal_text(mover);
                    v.append(id.as_str());
                    v.append(">");
                    msgs.push(v);
                    self.phase = Phase::Won(mover);
                }
                proof {
                    crate::play::lemma_move_turn(b0, t@);
                }
                self.board = Some(b);
            },
            _ => {},
        }
        assert(msgs@.map_values(|m: String| m@) =~= old(self).next(e).1);
        msgs
    }
}

} // verus!
