use vstd::prelude::*;

use crate::board::{
    glyph, in_grid, is_direction, lemma_dropped_wf, lemma_landing_row, Board, MoveOutcome, Tile,
};
use crate::text::{digit_value, first_digit};

verus! {

/// The board after the moves written as `moves`, played in order from `b`.
pub open spec fn play(b: Board, moves: Seq<Seq<char>>) -> Board
    decreases moves.len(),
{
    if moves.len() == 0 {
        b
    } else {
        play(b, moves.drop_last()).after_move(moves.last())
    }
}

/// How many of the moves `moves`, played in order from `b`, placed a piece.
pub open spec fn accepted(b: Board, moves: Seq<Seq<char>>) -> nat
    decreases moves.len(),
{
    if moves.len() == 0 {
        0
    } else {
        accepted(b, moves.drop_last()) + if play(b, moves.drop_last()).outcome_of(moves.last())
            == MoveOutcome::Placed {
            1nat
        } else {
            0nat
        }
    }
}

/// A single move hands the turn over exactly when it places a piece, and
/// keeps the pieces of each column contiguous.
pub proof fn lemma_move_turn(b: Board, text: Seq<char>)
    requires
        b.wf(),
    ensures
        b.after_move(text).wf(),
        b.after_move(text).players == b.players,
        b.after_move(text).turn == if b.outcome_of(text) == MoveOutcome::Placed {
            b.turn.other()
        } else {
            b.turn
        },
{
    if b.outcome_of(text) == MoveOutcome::Placed {
        lemma_dropped_wf(b, Board::column_of(text));
    }
}

/// Over any sequence of moves, the turn changes once for each move that
/// placed a piece and never for a refused one: after an even number of
/// placed pieces the same player is to move, after an odd number the other.
pub proof fn lemma_turn_alternates(b: Board, moves: Seq<Seq<char>>)
    requires
        b.wf(),
    ensures
        play(b, moves).wf(),
        play(b, moves).players == b.players,
        play(b, moves).turn == if accepted(b, moves) % 2 == 0 {
            b.turn
        } else {
            b.turn.other()
        },
    decreases moves.len(),
{
    if moves.len() > 0 {
        lemma_turn_alternates(b, moves.drop_last());
        lemma_move_turn(play(b, moves.drop_last()), moves.last());
    }
}

/// A move whose text holds no digit, or whose digit names no column, leaves
/// the board as it was, however many times it is sent in a row.
pub proof fn lemma_rejection_idempotent(b: Board, text: Seq<char>, k: nat)
    requires
        b.outcome_of(text) == MoveOutcome::NoDigit || b.outcome_of(text)
            == MoveOutcome::OutOfBounds,
    ensures
        b.after_move(text) == b,
        play(b, Seq::new(k, |i: int| text)) == b,
    decreases k,
{
    if k > 0 {
        lemma_rejection_idempotent(b, text, (k - 1) as nat);
        assert(Seq::new(k, |i: int| text).drop_last() =~= Seq::new((k - 1) as nat, |i: int| text));
    }
}

/// A move into a column that holds six pieces is refused as full, and the
/// board, turn included, stays as it was.
pub proof fn lemma_full_column(b: Board, text: Seq<char>)
    requires
        b.wf(),
        first_digit(text) matches Some(ch) && 1 <= digit_value(ch) <= 7,
        forall|r: int|
            0 <= r < 6 ==> #[trigger] b.at(Board::column_of(text), r) != Tile::Empty,
    ensures
        b.outcome_of(text) == MoveOutcome::ColumnFull,
        b.after_move(text) == b,
{
    lemma_landing_row(b, Board::column_of(text), 0);
}

/// A board with no pieces has no four in a row.
pub proof fn lemma_empty_board_no_win(b: Board)
    requires
        forall|c: int, r: int| in_grid(c, r) ==> #[trigger] b.at(c, r) == Tile::Empty,
    ensures
        !b.four_in_a_row(),
{
    assert forall|c: int, r: int, dc: int, dr: int|
        is_direction(dc, dr) implies !#[trigger] b.line_at(c, r, dc, dr) by {
        if in_grid(c, r) {
            assert(b.at(c, r) == Tile::Empty);
        }
    }
}

/// One line of the picture of `b`: the glyphs of row `r` from column 0 to
/// column 6, then a newline.
pub open spec fn line_text(b: Board, r: int) -> Seq<char> {
    glyph(b.at(0, r)) + glyph(b.at(1, r)) + glyph(b.at(2, r)) + glyph(b.at(3, r)) + glyph(
        b.at(4, r),
    ) + glyph(b.at(5, r)) + glyph(b.at(6, r)) + "\n"@
}

/// The picture of a board is exactly six lines of seven glyphs each, the
/// top row (row 5) first and the bottom row (row 0) last.
pub proof fn lemma_render_layout(b: Board)
    ensures
        b.render() == line_text(b, 5) + line_text(b, 4) + line_text(b, 3) + line_text(b, 2)
            + line_text(b, 1) + line_text(b, 0),
{
    let l = |r: int| b.row_text(r, 7) + "\n"@;
    assert forall|r: int| 0 <= r < 6 implies #[trigger] l(r) == line_text(b, r) by {
        lemma_row_line(b, r);
    }
    assert(b.rows_text(0) =~= Seq::empty());
    assert(b.rows_text(1) =~= l(5));
    assert(b.rows_text(2) =~= l(5) + l(4));
    assert(b.rows_text(3) =~= l(5) + l(4) + l(3));
    assert(b.rows_text(4) =~= l(5) + l(4) + l(3) + l(2));
    assert(b.rows_text(5) =~= l(5) + l(4) + l(3) + l(2) + l(1));
    assert(b.rows_text(6) =~= l(5) + l(4) + l(3) + l(2) + l(1) + l(0));
}

/// Row `r` of the picture, with its newline, is the line of seven glyphs.
proof fn lemma_row_line(b: Board, r: int)
    ensures
        b.row_text(r, 7) + "\n"@ == line_text(b, r),
{
    reveal_with_fuel(Board::row_text, 8);
    assert(b.row_text(r, 7) + "\n"@ =~= line_text(b, r));
}

/// Two boards with the same tiles have the same picture.
pub proof fn lemma_render_deterministic(b1: Board, b2: Board)
    requires
        forall|c: int, r: int| in_grid(c, r) ==> #[trigger] b1.at(c, r) == b2.at(c, r),
    ensures
        b1.render() == b2.render(),
{
    lemma_render_layout(b1);
    lemma_render_layout(b2);
    assert forall|r: int| 0 <= r < 6 implies line_text(b1, r) == line_text(b2, r) by {
        assert(b1.at(0, r) == b2.at(0, r));
        assert(b1.at(1, r) == b2.at(1, r));
        assert(b1.at(2, r) == b2.at(2, r));
        assert(b1.at(3, r) == b2.at(3, r));
        assert(b1.at(4, r) == b2.at(4, r));
        assert(b1.at(5, r) == b2.at(5, r));
        assert(b1.at(6, r) == b2.at(6, r));
    }
    assert(line_text(b1, 0) == line_text(b2, 0));
    assert(line_text(b1, 1) == line_text(b2, 1));
    assert(line_text(b1, 2) == line_text(b2, 2));
    assert(line_text(b1, 3) == line_text(b2, 3));
    assert(line_text(b1, 4) == line_text(b2, 4));
    assert(line_text(b1, 5) == line_text(b2, 5));
}

} // verus!
