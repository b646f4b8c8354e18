//! Cell states, human coordinate references and grid geometry.

use vstd::prelude::*;
use vstd::string::StrSliceExecFns;

verus! {

/// Number of rows on the playing field.
pub const ROWS: usize = 7;

/// Number of columns on the playing field.
pub const COLS: usize = 12;

/// Largest squared Euclidean distance a single move may cover.
pub const MOVE_RANGE_SQ: u64 = 4;

/// One addressable position of the grid holds exactly one of these states.
///
/// `Trap` and `Wall` are declared for future extension and currently have no
/// behavioral effect; they are matched exhaustively wherever cells are
/// inspected so that giving them behavior later stays a local change.
#[derive(Clone, Copy, PartialEq, Eq, Structural, Debug)]
pub enum Slot {
    Player1,
    Player2,
    Empty,
    Trap,
    Wall,
}

/// Why a submitted action was rejected. Every variant is recoverable: the
/// acting player keeps the turn and may retry.
#[derive(Clone, Copy, PartialEq, Eq, Structural, Debug)]
pub enum DuelError {
    /// The cell reference is malformed (not one letter followed by one or
    /// two digits).
    ParseFailure,
    /// The reference is well-formed but names a coordinate off the field.
    OutOfBounds,
    /// The destination cell is not empty.
    PositionOccupied,
    /// The destination exceeds the move range.
    TooFar,
    /// The opposing player is not close enough to be attacked.
    OutOfRange,
}

/// Zero-based column index encoded by a reference's letter, or `-1` when the
/// character is not a letter. Case-insensitive: `A` and `a` both name column 0.
pub open spec fn letter_index(c: char) -> int {
    if 'A' <= c && c <= 'Z' {
        c as int - 'A' as int
    } else if 'a' <= c && c <= 'z' {
        c as int - 'a' as int
    } else {
        -1
    }
}

/// True when `c` is a decimal digit.
pub open spec fn is_digit(c: char) -> bool {
    '0' <= c && c <= '9'
}

/// Numeric value of a decimal digit.
pub open spec fn digit_val(c: char) -> int {
    c as int - '0' as int
}

/// True when every character after the leading letter is a decimal digit.
pub open spec fn digits_ok(s: Seq<char>) -> bool {
    forall|i: int| 1 <= i < s.len() ==> is_digit(#[trigger] s[i])
}

/// The 1-based row number encoded by the digit suffix of a reference of
/// length 2 or 3.
pub open spec fn ref_number(s: Seq<char>) -> int {
    if s.len() == 2 {
        digit_val(s[1])
    } else {
        digit_val(s[1]) * 10 + digit_val(s[2])
    }
}

/// What parsing a cell reference yields: the zero-based `(row, column)` pair,
/// or the error. A reference is one letter (the column, case-insensitive)
/// followed by one or two digits (the 1-based row number). A malformed
/// reference is a `ParseFailure`; a well-formed one naming a coordinate off
/// the field is `OutOfBounds`.
pub open spec fn parse_view(s: Seq<char>) -> Result<(int, int), DuelError> {
    if s.len() != 2 && s.len() != 3 {
        Err(DuelError::ParseFailure)
    } else if letter_index(s[0]) < 0 {
        Err(DuelError::ParseFailure)
    } else if !digits_ok(s) {
        Err(DuelError::ParseFailure)
    } else if ref_number(s) == 0 || ref_number(s) > ROWS || letter_index(s[0]) >= COLS {
        Err(DuelError::OutOfBounds)
    } else {
        Ok((ref_number(s) - 1, letter_index(s[0])))
    }
}

/// The canonical reference of an in-bounds cell: its column letter followed
/// by its 1-based row number, which on this board is a single digit.
pub open spec fn ref_of(row: int, col: int) -> Seq<char> {
    seq![(('A' as int + col) as char), (('1' as int + row) as char)]
}

/// Parsing inverts naming: the canonical reference of any in-bounds cell
/// parses back to exactly that cell, so every cell can be named.
pub proof fn lemma_parse_round_trip(row: int, col: int)
    requires
        0 <= row < ROWS,
        0 <= col < COLS,
    ensures
        parse_view(ref_of(row, col)) == Ok::<(int, int), DuelError>((row, col)),
{
    let s = ref_of(row, col);
    assert(s[0] == ('A' as int + col) as char);
    assert(s[1] == ('1' as int + row) as char);
    assert(s[0] as int == 'A' as int + col);
    assert(s[1] as int == '1' as int + row);
    assert(letter_index(s[0]) == col);
    assert(is_digit(s[1]) && digit_val(s[1]) == row + 1);
    assert(digits_ok(s));
    assert(ref_number(s) == row + 1);
}

/// Parse a human-entered cell reference such as `"A1"` into a zero-based
/// `(row, column)` pair, exactly as [`parse_view`] describes.
pub fn parse_pos(pos: &str) -> (r: Result<(usize, usize), DuelError>)
    ensures
        match r {
            Ok(p) => {
                &&& parse_view(pos@) == Ok::<(int, int), DuelError>((p.0 as int, p.1 as int))
                &&& p.0 < ROWS
                &&& p.1 < COLS
            },
            Err(e) => parse_view(pos@) == Err::<(int, int), DuelError>(e),
        },
{
    let n: usize = pos.unicode_len();
    if n != 2 && n != 3 {
        return Err(DuelError::ParseFailure);
    }
    let c0: char = pos.get_char(0);
    let col: usize;
    if 'A' <= c0 && c0 <= 'Z' {
        col = (c0 as u32 - 'A' as u32) as usize;
    } else if 'a' <= c0 && c0 <= 'z' {
        col = (c0 as u32 - 'a' as u32) as usize;
    } else {
        return Err(DuelError::ParseFailure);
    }
    let d1: char = pos.get_char(1);
    if !('0' <= d1 && d1 <= '9') {
        return Err(DuelError::ParseFailure);
    }
    let mut num: usize = (d1 as u32 - '0' as u32) as usize;
    if n == 3 {
        let d2: char = pos.get_char(2);
        if !('0' <= d2 && d2 <= '9') {
            return Err(DuelError::ParseFailure);
        }
        num = num * 10 + (d2 as u32 - '0' as u32) as usize;
    }
    if num == 0 || num > ROWS || col >= COLS {
        return Err(DuelError::OutOfBounds);
    }
    Ok((num - 1, col))
}

/// Squared Euclidean distance between two coordinates.
pub open spec fn dist_sq(r1: int, c1: int, r2: int, c2: int) -> int {
    (r1 - r2) * (r1 - r2) + (c1 - c2) * (c1 - c2)
}

/// Squared Euclidean distance between two in-bounds coordinates.
pub fn distance_sq(r1: usize, c1: usize, r2: usize, c2: usize) -> (d: u64)
    requires
        r1 < ROWS,
        c1 < COLS,
        r2 < ROWS,
        c2 < COLS,
    ensures
        d == dist_sq(r1 as int, c1 as int, r2 as int, c2 as int),
{
    let dr: i64 = r1 as i64 - r2 as i64;
    let dc: i64 = c1 as i64 - c2 as i64;
    proof {
        assert(0 <= dr * dr <= 49) by (nonlinear_arith)
            requires
                -7 <= dr <= 7,
        ;
        assert(0 <= dc * dc <= 144) by (nonlinear_arith)
            requires
                -12 <= dc <= 12,
        ;
    }
    let sq: i64 = dr * dr + dc * dc;
    sq as u64
}

} // verus!
