use vstd::prelude::*;

use crate::text::{
    digit_value, first_digit, first_number_of, lemma_first_digit_is_digit,
    lemma_first_digit_starts_number,
};

verus! {

/// Number of columns of the grid.
pub const COLUMNS: usize = 7;

/// Number of rows of the grid.
pub const ROWS: usize = 6;

/// Whose move it is.
#[derive(Clone, Copy, PartialEq, Eq, Debug, Structural)]
pub enum Turn {
    Player1,
    Player2,
}

impl Turn {
    /// The other player.
    pub open spec fn other(self) -> Turn {
        match self {
            Turn::Player1 => Turn::Player2,
            Turn::Player2 => Turn::Player1,
        }
    }

    /// The piece that this player drops.
    pub open spec fn tile(self) -> Tile {
        match self {
            Turn::Player1 => Tile::Player1,
            Turn::Player2 => Tile::Player2,
        }
    }

    /// Hands the move to the other player.
    pub fn swap(&mut self)
        ensures
            *final(self) == old(self).other(),
    {
        *self = match *self {
            Turn::Player1 => Turn::Player2,
            Turn::Player2 => Turn::Player1,
        };
    }
}

/// One cell of the grid.
#[derive(Clone, Copy, PartialEq, Eq, Debug, Structural)]
pub enum Tile {
    Player1,
    Player2,
    Empty,
}

/// A Connect Four game: a 7 by 6 grid stored column by column (row 0 is the
/// bottom), the player to move, and the two players' user ids
/// (initiator first).
pub struct Board {
    pub tiles: [Tile; 42],
    pub turn: Turn,
    pub players: (u64, u64),
}

/// Whether `(c, r)` names a cell of the grid.
pub open spec fn in_grid(c: int, r: int) -> bool {
    0 <= c < COLUMNS && 0 <= r < ROWS
}

/// The four orientations of a line: across, up, and the two diagonals.
pub open spec fn is_direction(dc: int, dr: int) -> bool {
    (dc == 1 && dr == 0) || (dc == 0 && dr == 1) || (dc == 1 && dr == 1) || (dc == 1 && dr
        == -1)
}

impl Board {
    /// The tile at column `c`, row `r`.
    pub open spec fn at(self, c: int, r: int) -> Tile {
        self.tiles@[c * 6 + r]
    }

    /// Pieces lie in each column as a contiguous run from the bottom.
    pub open spec fn wf(self) -> bool {
        forall|c: int, r1: int, r2: int|
            #![trigger self.at(c, r1), self.at(c, r2)]
            in_grid(c, r1) && in_grid(c, r2) && r1 < r2 && self.at(c, r2) != Tile::Empty
                ==> self.at(c, r1) != Tile::Empty
    }

    /// The lowest empty row of column `c` at or above row `r`, or 6 if there is none.
    pub open spec fn first_empty_from(self, c: int, r: int) -> int
        decreases 6 - r,
    {
        if r >= 6 {
            6
        } else if self.at(c, r) == Tile::Empty {
            r
        } else {
            self.first_empty_from(c, r + 1)
        }
    }

    /// The row where a piece dropped into column `c` lands, or 6 if the column is full.
    pub open spec fn landing_row(self, c: int) -> int {
        self.first_empty_from(c, 0)
    }

    /// The board after the player to move drops a piece into column `c`,
    /// which has room.
    pub open spec fn dropped(self, c: int) -> Board {
        Board {
            tiles: vstd::array::spec_array_update(
                self.tiles,
                c * 6 + self.landing_row(c),
                self.turn.tile(),
            ),
            turn: self.turn.other(),
            players: self.players,
        }
    }

    /// Four equal non-empty tiles start at `(c, r)` and go in direction `(dc, dr)`.
    pub open spec fn line_at(self, c: int, r: int, dc: int, dr: int) -> bool {
        &&& in_grid(c, r)
        &&& in_grid(c + 3 * dc, r + 3 * dr)
        &&& self.at(c, r) != Tile::Empty
        &&& self.at(c + dc, r + dr) == self.at(c, r)
        &&& self.at(c + 2 * dc, r + 2 * dr) == self.at(c, r)
        &&& self.at(c + 3 * dc, r + 3 * dr) == self.at(c, r)
    }

    /// Some player has four in a row across, up or diagonally.
    pub open spec fn four_in_a_row(self) -> bool {
        exists|c: int, r: int, dc: int, dr: int|
            is_direction(dc, dr) && #[trigger] self.line_at(c, r, dc, dr)
    }

    /// The user id of the player to move.
    pub open spec fn player_to_move(self) -> u64 {
        match self.turn {
            Turn::Player1 => self.players.0,
            Turn::Player2 => self.players.1,
        }
    }
}


/// What became of a move.
#[derive(Clone, Copy, PartialEq, Eq, Debug, Structural)]
pub enum MoveOutcome {
    /// The piece was dropped and the move passed to the other player.
    Placed,
    /// The chosen column has no empty tile.
    ColumnFull,
    /// The digit found does not name a column from 1 to 7.
    OutOfBounds,
    /// The text holds no digit.
    NoDigit,
}

impl Board {
    /// What a move written as `text` does to this board.
    pub open spec fn outcome_of(self, text: Seq<char>) -> MoveOutcome {
        match first_digit(text) {
            None => MoveOutcome::NoDigit,
            Some(ch) => {
                let n = digit_value(ch);
                if n < 1 || n > 7 {
                    MoveOutcome::OutOfBounds
                } else if self.landing_row(n - 1) >= 6 {
                    MoveOutcome::ColumnFull
                } else {
                    MoveOutcome::Placed
                }
            },
        }
    }

    /// The board after a move written as `text`: changed only when the piece is placed.
    pub open spec fn after_move(self, text: Seq<char>) -> Board {
        if self.outcome_of(text) == MoveOutcome::Placed {
            self.dropped(Board::column_of(text))
        } else {
            self
        }
    }

    /// The column (from 0) that a move written as `text` names.
    pub open spec fn column_of(text: Seq<char>) -> int {
        digit_value(first_digit(text).unwrap()) - 1
    }

    /// An empty grid, player 1 (`initiator`) to move.
    pub open spec fn fresh(initiator: u64, pinged: u64) -> Board {
        Board {
            tiles: vstd::array::spec_array_fill_for_copy_type::<Tile, 42>(Tile::Empty),
            turn: Turn::Player1,
            players: (initiator, pinged),
        }
    }

    /// An empty grid, player 1 (`initiator`) to move.
    pub fn new(initiator: u64, pinged: u64) -> (b: Board)
        ensures
            b == Board::fresh(initiator, pinged),
            b.wf(),
            forall|c: int, r: int| in_grid(c, r) ==> #[trigger] b.at(c, r) == Tile::Empty,
            b.turn == Turn::Player1,
            b.players == (initiator, pinged),
    {
        Board { tiles: [Tile::Empty; 42], turn: Turn::Player1, players: (initiator, pinged) }
    }

    /// The user id of the player to move.
    pub fn current_player(&self) -> (id: u64)
        ensures
            id == self.player_to_move(),
    {
        match self.turn {
            Turn::Player1 => self.players.0,
            Turn::Player2 => self.players.1,
        }
    }

    /// Drops the piece of the player to move into column `c`, if it has room,
    /// and then hands the move over. Returns whether it did.
    fn drop_piece(&mut self, c: usize) -> (placed: bool)
        requires
            old(self).wf(),
            c < 7,
        ensures
            final(self).wf(),
            placed == (old(self).landing_row(c as int) < 6),
            placed ==> *final(self) == old(self).dropped(c as int),
            !placed ==> *final(self) == *old(self),
    {
        let ghost b0 = *self;
        let mut r: usize = 0;
        while r < 6
            invariant
                *self == b0,
                b0 == *old(self),
                c < 7,
                0 <= r <= 6,
                b0.wf(),
                forall|k: int| 0 <= k < r ==> #[trigger] b0.at(c as int, k) != Tile::Empty,
            decreases 6 - r,
        {
            let i = c * 6 + r;
            if self.tiles[i] == Tile::Empty {
                assert(b0.at(c as int, r as int) == Tile::Empty);
                proof {
                    lemma_landing_row(b0, c as int, 0);
                }
                let piece = match self.turn {
                    Turn::Player1 => Tile::Player1,
                    Turn::Player2 => Tile::Player2,
                };
                assert(b0.landing_row(c as int) == r);
                self.tiles[i] = piece;
                self.turn.swap();
                proof {
                    lemma_dropped_wf(b0, c as int);
                    assert(self.tiles =~= b0.dropped(c as int).tiles);
                    assert(*self == b0.dropped(c as int));
                }
                return true;
            }
            r = r + 1;
        }
        proof {
            lemma_landing_row(b0, c as int, 0);
        }
        false
    }

    /// Plays the move written as `text` for the player to move.
    ///
    /// The first decimal digit of `text` names the column, counted from 1.
    /// The board changes only when the piece is placed.
    pub fn apply_move(&mut self, text: &str) -> (res: MoveOutcome)
        requires
            old(self).wf(),
        ensures
            final(self).wf(),
            res == old(self).outcome_of(text@),
            *final(self) == old(self).after_move(text@),
    {
        proof {
            lemma_first_digit_is_digit(text@);
            lemma_first_digit_starts_number(text@);
        }
        match first_number_of(text) {
            None => MoveOutcome::NoDigit,
            Some(number) => {
                let ch = number.as_str().get_char(0);
                let n = ch as u32 - '0' as u32;
                if n < 1 || n > 7 {
                    MoveOutcome::OutOfBounds
                } else if self.drop_piece((n - 1) as usize) {
                    MoveOutcome::Placed
                } else {
                    MoveOutcome::ColumnFull
                }
            },
        }
    }
}

/// The text shown for one tile.
pub open spec fn glyph(t: Tile) -> Seq<char> {
    match t {
        Tile::Empty => ":black_circle:"@,
        Tile::Player1 => ":red_circle:"@,
        Tile::Player2 => ":yellow_circle:"@,
    }
}

/// The reply to a move: the board as it now stands, or why the move was refused.
pub open spec fn reply_text(outcome: MoveOutcome, after: Board) -> Seq<char> {
    match outcome {
        MoveOutcome::Placed => after.render(),
        MoveOutcome::ColumnFull => "Column full"@,
        MoveOutcome::OutOfBounds => "Out of board limits!"@,
        MoveOutcome::NoDigit => "Error"@,
    }
}

impl Board {
    /// The glyphs of the first `n` columns of row `r`, left to right.
    pub open spec fn row_text(self, r: int, n: int) -> Seq<char>
        decreases n,
    {
        if n <= 0 {
            Seq::empty()
        } else {
            self.row_text(r, n - 1) + glyph(self.at(n - 1, r))
        }
    }

    /// The first `k` lines of the picture: rows 5 down to `6 - k`, each
    /// followed by a newline.
    pub open spec fn rows_text(self, k: int) -> Seq<char>
        decreases k,
    {
        if k <= 0 {
            Seq::empty()
        } else {
            self.rows_text(k - 1) + self.row_text(6 - k, 7) + "\n"@
        }
    }

    /// The picture of the board: six lines of seven glyphs, top row first.
    pub open spec fn render(self) -> Seq<char> {
        self.rows_text(6)
    }

    /// Whether four equal pieces start at `(c, r)` in direction `(dc, dr)`.
    fn line_from(&self, c: i64, r: i64, dc: i64, dr: i64) -> (res: bool)
        requires
            in_grid(c as int, r as int),
            is_direction(dc as int, dr as int),
        ensures
            res == self.line_at(c as int, r as int, dc as int, dr as int),
    {
        let ec = c + 3 * dc;
        let er = r + 3 * dr;
        if ec < 0 || ec >= 7 || er < 0 || er >= 6 {
            return false;
        }
        let t = self.tiles[(c * 6 + r) as usize];
        t != Tile::Empty && self.tiles[((c + dc) * 6 + r + dr) as usize] == t && self.tiles[((c + 2
            * dc) * 6 + r + 2 * dr) as usize] == t && self.tiles[(ec * 6 + er) as usize] == t
    }
}

/// Whether some player has four pieces in a row, across, up or on either diagonal.
pub fn connect_4_check(board: &Board) -> (won: bool)
    ensures
        won == board.four_in_a_row(),
{
    let mut c: i64 = 0;
    while c < 7
        invariant
            0 <= c <= 7,
            forall|c2: int, r2: int, dc: int, dr: int|
                c2 < c && is_direction(dc, dr) ==> !#[trigger] board.line_at(c2, r2, dc, dr),
        decreases 7 - c,
    {
        let mut r: i64 = 0;
        while r < 6
            invariant
                0 <= c < 7,
                0 <= r <= 6,
                forall|c2: int, r2: int, dc: int, dr: int|
                    (c2 < c || (c2 == c && r2 < r)) && is_direction(dc, dr) ==> !#[trigger] board.line_at(
                        c2,
                        r2,
                        dc,
                        dr,
                    ),
            decreases 6 - r,
        {
            if board.line_from(c, r, 1, 0) {
                assert(is_direction(1, 0));
                return true;
            }
            if board.line_from(c, r, 0, 1) {
                assert(is_direction(0, 1));
                return true;
            }
            if board.line_from(c, r, 1, 1) {
                assert(is_direction(1, 1));
                return true;
            }
            if board.line_from(c, r, 1, -1) {
                assert(is_direction(1, -1));
                return true;
            }
            r = r + 1;
        }
        c = c + 1;
    }
    false
}

/// The board as text: six lines, top row first, each of seven glyphs and a newline.
pub fn print_board(board: &Board) -> (text: String)
    ensures
        text@ == board.render(),
{
    let mut text = String::new();
    let mut row: usize = 0;
    while row < 6
        invariant
            row <= 6,
            text@ == board.rows_text(row as int),
        decreases 6 - row,
    {
        let ghost before = text@;
        let mut col: usize = 0;
        while col < 7
            invariant
                row < 6,
                col <= 7,
                before == board.rows_text(row as int),
                text@ == before + board.row_text(5 - row, col as int),
            decreases 7 - col,
        {
            let g = match board.tiles[col * 6 + (5 - row)] {
                Tile::Empty => ":black_circle:",
                Tile::Player1 => ":red_circle:",
                Tile::Player2 => ":yellow_circle:",
            };
            proof {
                reveal_strlit(":black_circle:");
                reveal_strlit(":red_circle:");
                reveal_strlit(":yellow_circle:");
            }
            text.append(g);
            assert(text@ =~= before + board.row_text(5 - row, col + 1));
            col = col + 1;
        }
        text.append("\n");
        assert(text@ =~= board.rows_text(row + 1));
        row = row + 1;
    }
    text
}

/// Plays the move written as `string` and returns the reply for the players:
/// the new board, "Column full", "Out of board limits!" or "Error".
pub fn connect_4_turn(string: &str, board: &mut Board) -> (reply: String)
    requires
        old(board).wf(),
    ensures
        final(board).wf(),
        *final(board) == old(board).after_move(string@),
        reply@ == reply_text(old(board).outcome_of(string@), *final(board)),
{
    match board.apply_move(string) {
        MoveOutcome::Placed => print_board(board),
        MoveOutcome::ColumnFull => String::from_str("Column full"),
        MoveOutcome::OutOfBounds => String::from_str("Out of board limits!"),
        MoveOutcome::NoDigit => String::from_str("Error"),
    }
}

/// Where a scan of column `c` upward from row `r` stops: every row passed is
/// taken, and the row where it stops, if any, is empty.
pub proof fn lemma_landing_row(b: Board, c: int, r: int)
    requires
        0 <= r <= 6,
    ensures
        r <= b.first_empty_from(c, r) <= 6,
        forall|k: int| r <= k < b.first_empty_from(c, r) ==> #[trigger] b.at(c, k) != Tile::Empty,
        b.first_empty_from(c, r) < 6 ==> b.at(c, b.first_empty_from(c, r)) == Tile::Empty,
    decreases 6 - r,
{
    if r < 6 && b.at(c, r) != Tile::Empty {
        lemma_landing_row(b, c, r + 1);
    }
}

/// Dropping a piece into a column with room keeps the pieces of every column
/// contiguous from the bottom.
pub proof fn lemma_dropped_wf(b: Board, c: int)
    requires
        b.wf(),
        0 <= c < 7,
        b.landing_row(c) < 6,
    ensures
        b.dropped(c).wf(),
        forall|c2: int, r2: int|
            #![trigger b.dropped(c).at(c2, r2)]
            in_grid(c2, r2) ==> b.dropped(c).at(c2, r2) == if c2 == c && r2 == b.landing_row(c) {
                b.turn.tile()
            } else {
                b.at(c2, r2)
            },
{
    lemma_landing_row(b, c, 0);
    let d = b.dropped(c);
    let r0 = b.landing_row(c);
    assert forall|c2: int, r2: int|
        #![trigger d.at(c2, r2)]
        in_grid(c2, r2) implies d.at(c2, r2) == if c2 == c && r2 == r0 {
            b.turn.tile()
        } else {
            b.at(c2, r2)
        } by {
        assert(c2 * 6 + r2 == c * 6 + r0 <==> (c2 == c && r2 == r0));
    }
    assert forall|c2: int, r1: int, r2: int|
        #![trigger d.at(c2, r1), d.at(c2, r2)]
        in_grid(c2, r1) && in_grid(c2, r2) && r1 < r2 && d.at(c2, r2) != Tile::Empty implies d.at(
        c2,
        r1,
    ) != Tile::Empty by {
        if c2 == c && r2 > r0 && r1 != r0 {
            assert(b.at(c2, r2) != Tile::Empty);
            assert(b.at(c2, r0) == Tile::Empty);
        }
    }
}

} // verus!
