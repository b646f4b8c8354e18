use duel_engine::grid::parse_pos;
use duel_engine::grid::DuelError;

#[test]
fn parse_a1_is_origin() {
    assert_eq!(parse_pos("A1"), Ok((0, 0)));
}

#[test]
fn parse_l7_is_far_corner() {
    assert_eq!(parse_pos("L7"), Ok((6, 11)));
}

#[test]
fn parse_is_case_insensitive() {
    assert_eq!(parse_pos("a1"), Ok((0, 0)));
    assert_eq!(parse_pos("l7"), Ok((6, 11)));
}

#[test]
fn parse_column_past_edge_is_out_of_bounds() {
    assert_eq!(parse_pos("M1"), Err(DuelError::OutOfBounds));
}

#[test]
fn parse_row_past_edge_is_out_of_bounds() {
    assert_eq!(parse_pos("A8"), Err(DuelError::OutOfBounds));
}

#[test]
fn parse_row_zero_is_out_of_bounds() {
    assert_eq!(parse_pos("A0"), Err(DuelError::OutOfBounds));
}

#[test]
fn parse_two_digit_row_past_edge_is_out_of_bounds() {
    assert_eq!(parse_pos("A12"), Err(DuelError::OutOfBounds));
}

#[test]
fn parse_empty_reference_fails() {
    assert_eq!(parse_pos(""), Err(DuelError::ParseFailure));
}

#[test]
fn parse_single_character_fails() {
    assert_eq!(parse_pos("A"), Err(DuelError::ParseFailure));
}

#[test]
fn parse_non_letter_column_fails() {
    assert_eq!(parse_pos("11"), Err(DuelError::ParseFailure));
    assert_eq!(parse_pos("?1"), Err(DuelError::ParseFailure));
}

#[test]
fn parse_non_digit_row_fails() {
    assert_eq!(parse_pos("AA"), Err(DuelError::ParseFailure));
    assert_eq!(parse_pos("A1X"), Err(DuelError::ParseFailure));
}

#[test]
fn parse_overlong_reference_fails() {
    assert_eq!(parse_pos("A123"), Err(DuelError::ParseFailure));
}
