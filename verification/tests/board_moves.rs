use duel_engine::board::Board;
use duel_engine::grid::distance_sq;
use duel_engine::grid::DuelError;

#[test]
fn fresh_board_has_players_on_their_start_cells() {
    let b = Board::new();
    assert_eq!(b.find_player(true), Some((3, 1)));
    assert_eq!(b.find_player(false), Some((3, 10)));
}

#[test]
fn distance_formula_exact_values() {
    assert_eq!(distance_sq(3, 1, 3, 1), 0);
    assert_eq!(distance_sq(3, 1, 3, 2), 1);
    assert_eq!(distance_sq(3, 1, 1, 3), 8);
    assert_eq!(distance_sq(3, 1, 3, 10), 81);
}

#[test]
fn orthogonal_step_succeeds_and_updates_board() {
    let mut b = Board::new();
    assert_eq!(b.move_player(true, "C4"), Ok(()));
    assert_eq!(b.find_player(true), Some((3, 2)));
    assert_eq!(b.find_player(false), Some((3, 10)));
}

#[test]
fn move_clears_previous_cell() {
    let mut b = Board::new();
    assert_eq!(b.move_player(true, "C4"), Ok(()));
    // The start cell must be empty again: stepping back onto it succeeds.
    assert_eq!(b.move_player(true, "B4"), Ok(()));
    assert_eq!(b.find_player(true), Some((3, 1)));
}

#[test]
fn two_cell_diagonal_is_too_far() {
    let mut b = Board::new();
    let before = b.get_string();
    assert_eq!(b.move_player(true, "D2"), Err(DuelError::TooFar));
    assert_eq!(b.get_string(), before);
}

#[test]
fn landing_on_opponent_is_rejected_as_occupied() {
    let mut b = Board::new();
    let before = b.get_string();
    assert_eq!(b.move_player(true, "K4"), Err(DuelError::PositionOccupied));
    assert_eq!(b.get_string(), before);
    assert_eq!(b.find_player(true), Some((3, 1)));
    assert_eq!(b.find_player(false), Some((3, 10)));
}

#[test]
fn rejected_parse_leaves_board_unchanged() {
    let mut b = Board::new();
    let before = b.get_string();
    assert_eq!(b.move_player(true, "Z9"), Err(DuelError::OutOfBounds));
    assert_eq!(b.move_player(true, "!!"), Err(DuelError::ParseFailure));
    assert_eq!(b.get_string(), before);
}

#[test]
fn both_markers_survive_a_sequence_of_moves() {
    let mut b = Board::new();
    assert_eq!(b.move_player(true, "D4"), Ok(()));
    assert_eq!(b.move_player(false, "I4"), Ok(()));
    assert_eq!(b.move_player(true, "D6"), Ok(()));
    assert_eq!(b.move_player(false, "I2"), Ok(()));
    let s = b.get_string();
    assert_eq!(s.matches(":sunglasses:").count(), 1);
    assert_eq!(s.matches(":smiling_imp:").count(), 1);
    assert_eq!(b.find_player(true), Some((5, 3)));
    assert_eq!(b.find_player(false), Some((1, 8)));
}

#[test]
fn rendering_is_pure_and_deterministic() {
    let b = Board::new();
    assert_eq!(b.get_string(), b.get_string());
}

#[test]
fn fresh_board_renders_expected_text() {
    let b = Board::new();
    let mut expected = String::new();
    expected.push_str(":blue_square:");
    for c in [
        "a", "b", "c", "d", "e", "f", "g", "h", "i", "j", "k", "l",
    ] {
        expected.push_str(&format!(":regional_indicator_{}:", c));
    }
    expected.push('\n');
    let row_headers = [":one:", ":two:", ":three:", ":four:", ":five:", ":six:", ":seven:"];
    for (i, h) in row_headers.iter().enumerate() {
        expected.push_str(h);
        for j in 0..12 {
            if i == 3 && j == 1 {
                expected.push_str(":sunglasses:");
            } else if i == 3 && j == 10 {
                expected.push_str(":smiling_imp:");
            } else {
                expected.push_str(":brown_square:");
            }
        }
        expected.push('\n');
    }
    assert_eq!(b.get_string(), expected);
}
