use hamis::board::{connect_4_check, connect_4_turn, print_board, Board, MoveOutcome, Tile, Turn};

const EMPTY: &str = ":black_circle:";
const RED: &str = ":red_circle:";
const YELLOW: &str = ":yellow_circle:";

fn empty_line() -> String {
    let mut s = String::new();
    for _ in 0..7 {
        s.push_str(EMPTY);
    }
    s.push('\n');
    s
}

#[test]
fn new_board_is_empty_with_player1_to_move() {
    let b = Board::new(10, 20);
    assert!(b.tiles.iter().all(|t| *t == Tile::Empty));
    assert_eq!(b.turn, Turn::Player1);
    assert_eq!(b.players, (10, 20));
    assert_eq!(b.current_player(), 10);
}

#[test]
fn turn_swap_alternates() {
    let mut t = Turn::Player1;
    t.swap();
    assert_eq!(t, Turn::Player2);
    t.swap();
    assert_eq!(t, Turn::Player1);
}

#[test]
fn empty_board_renders_six_lines_of_seven_glyphs() {
    let b = Board::new(1, 2);
    let text = print_board(&b);
    assert_eq!(text, empty_line().repeat(6));
    assert_eq!(text.lines().count(), 6);
    assert!(text.ends_with('\n'));
}

#[test]
fn render_puts_bottom_row_last_and_is_deterministic() {
    let mut b = Board::new(1, 2);
    assert_eq!(b.apply_move("1"), MoveOutcome::Placed);
    assert_eq!(b.apply_move("7"), MoveOutcome::Placed);
    let text = print_board(&b);
    let lines: Vec<&str> = text.lines().collect();
    assert_eq!(lines.len(), 6);
    let bottom = format!("{}{}{}", RED, EMPTY.repeat(5), YELLOW);
    assert_eq!(lines[5], bottom);
    for line in &lines[0..5] {
        assert_eq!(*line, EMPTY.repeat(7));
    }
    let mut c = Board::new(1, 2);
    c.apply_move("1");
    c.apply_move("7");
    assert_eq!(print_board(&c), text);
}

#[test]
fn move_places_at_bottom_and_swaps_turn() {
    let mut b = Board::new(1, 2);
    let reply = connect_4_turn("column 4", &mut b);
    assert_eq!(b.tiles[3 * 6], Tile::Player1);
    assert_eq!(b.turn, Turn::Player2);
    assert_eq!(b.current_player(), 2);
    assert_eq!(reply, print_board(&b));
    connect_4_turn("4", &mut b);
    assert_eq!(b.tiles[3 * 6 + 1], Tile::Player2);
    assert_eq!(b.turn, Turn::Player1);
}

#[test]
fn first_digit_decides_the_column() {
    let mut b = Board::new(1, 2);
    assert_eq!(b.apply_move("I pick 25"), MoveOutcome::Placed);
    assert_eq!(b.tiles[6], Tile::Player1);
}

#[test]
fn digit_zero_is_out_of_bounds() {
    let mut b = Board::new(1, 2);
    let before = b.tiles;
    let reply = connect_4_turn("put it in 0 please", &mut b);
    assert_eq!(reply, "Out of board limits!");
    assert_eq!(b.tiles, before);
    assert_eq!(b.turn, Turn::Player1);
}

#[test]
fn digit_eight_is_out_of_bounds() {
    let mut b = Board::new(1, 2);
    assert_eq!(connect_4_turn("8", &mut b), "Out of board limits!");
    assert_eq!(b.apply_move("9"), MoveOutcome::OutOfBounds);
    assert!(b.tiles.iter().all(|t| *t == Tile::Empty));
}

#[test]
fn text_without_digit_is_an_error() {
    let mut b = Board::new(1, 2);
    let reply = connect_4_turn("pass", &mut b);
    assert_eq!(reply, "Error");
    assert!(b.tiles.iter().all(|t| *t == Tile::Empty));
    assert_eq!(b.turn, Turn::Player1);
    assert_eq!(b.apply_move(""), MoveOutcome::NoDigit);
}

#[test]
fn repeated_rejections_change_nothing() {
    let mut b = Board::new(1, 2);
    b.apply_move("2");
    let tiles = b.tiles;
    let turn = b.turn;
    for _ in 0..5 {
        assert_eq!(b.apply_move("0"), MoveOutcome::OutOfBounds);
        assert_eq!(b.apply_move("nope"), MoveOutcome::NoDigit);
    }
    assert_eq!(b.tiles, tiles);
    assert_eq!(b.turn, turn);
}

#[test]
fn full_column_is_refused_without_turn_change() {
    let mut b = Board::new(1, 2);
    for _ in 0..6 {
        assert_eq!(b.apply_move("5"), MoveOutcome::Placed);
    }
    let tiles = b.tiles;
    assert_eq!(b.turn, Turn::Player1);
    assert_eq!(connect_4_turn("5", &mut b), "Column full");
    assert_eq!(b.apply_move("5"), MoveOutcome::ColumnFull);
    assert_eq!(b.tiles, tiles);
    assert_eq!(b.turn, Turn::Player1);
}

#[test]
fn turn_alternates_over_accepted_moves_only() {
    let mut b = Board::new(1, 2);
    let moves = ["1", "x", "2", "0", "3", "3", "9", "4"];
    let mut placed = 0;
    for m in moves {
        if b.apply_move(m) == MoveOutcome::Placed {
            placed += 1;
        }
        let expected = if placed % 2 == 0 { Turn::Player1 } else { Turn::Player2 };
        assert_eq!(b.turn, expected);
    }
    assert_eq!(placed, 5);
}

#[test]
fn empty_board_has_no_win() {
    assert!(!connect_4_check(&Board::new(1, 2)));
}

#[test]
fn vertical_four_wins() {
    let mut b = Board::new(1, 2);
    for _ in 0..3 {
        b.apply_move("3");
        assert!(!connect_4_check(&b));
        b.apply_move("1");
        assert!(!connect_4_check(&b));
    }
    let mover = b.current_player();
    b.apply_move("3");
    assert!(connect_4_check(&b));
    assert_eq!(mover, 1);
}

#[test]
fn horizontal_four_wins() {
    let mut b = Board::new(1, 2);
    for c in ["4", "5", "6"] {
        b.apply_move(c);
        b.apply_move(c);
    }
    assert!(!connect_4_check(&b));
    b.apply_move("7");
    assert!(connect_4_check(&b));
}

#[test]
fn rising_diagonal_wins() {
    let mut b = Board::new(1, 2);
    for m in ["1", "2", "2", "3", "3", "4", "3", "4", "4", "7"] {
        b.apply_move(m);
    }
    assert!(!connect_4_check(&b));
    b.apply_move("4");
    assert!(connect_4_check(&b));
}

#[test]
fn falling_diagonal_wins() {
    let mut b = Board::new(1, 2);
    for m in ["7", "6", "6", "5", "5", "4", "5", "4", "4", "1"] {
        b.apply_move(m);
    }
    assert!(!connect_4_check(&b));
    b.apply_move("4");
    assert!(connect_4_check(&b));
}

#[test]
fn three_in_a_row_is_no_win() {
    let mut b = Board::new(1, 2);
    for m in ["1", "1", "2", "2", "3", "3"] {
        b.apply_move(m);
    }
    assert!(!connect_4_check(&b));
}

#[test]
fn mixed_owners_in_a_line_are_no_win() {
    let mut b = Board::new(1, 2);
    for m in ["1", "2", "3", "4", "5", "6", "7"] {
        b.apply_move(m);
    }
    assert!(!connect_4_check(&b));
}
