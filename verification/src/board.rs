//! The playing field: construction and well-formedness.

use vstd::prelude::*;
use vstd::pervasive::VecAdditionalExecFns;
use vstd::pervasive::unreached;

use crate::grid::COLS;
use crate::grid::DuelError;
use crate::grid::MOVE_RANGE_SQ;
use crate::grid::ROWS;
use crate::grid::Slot;
use crate::grid::dist_sq;
use crate::grid::distance_sq;
use crate::grid::parse_pos;
use crate::grid::parse_view;

verus! {

/// True when `g` has exactly `ROWS` rows of `COLS` cells each.
pub open spec fn grid_dims(g: Seq<Seq<Slot>>) -> bool {
    &&& g.len() == ROWS
    &&& forall|i: int| 0 <= i < ROWS ==> (#[trigger] g[i]).len() == COLS
}

/// True when cell `(r, c)` is in bounds and holds `s`.
pub open spec fn is_at(g: Seq<Seq<Slot>>, s: Slot, r: int, c: int) -> bool {
    &&& 0 <= r < ROWS
    &&& 0 <= c < COLS
    &&& g[r][c] == s
}

/// True when `(r, c)` is the one and only cell of `g` holding `s`.
pub open spec fn only_at(g: Seq<Seq<Slot>>, s: Slot, r: int, c: int) -> bool {
    &&& is_at(g, s, r, c)
    &&& forall|r2: int, c2: int| is_at(g, s, r2, c2) ==> r2 == r && c2 == c
}

/// True when exactly one cell of `g` holds `s`.
pub open spec fn exactly_one(g: Seq<Seq<Slot>>, s: Slot) -> bool {
    exists|r: int, c: int| only_at(g, s, r, c)
}

/// The board invariant: proper dimensions, and exactly one cell per player
/// marker.
pub open spec fn board_wf(g: Seq<Seq<Slot>>) -> bool {
    &&& grid_dims(g)
    &&& exactly_one(g, Slot::Player1)
    &&& exactly_one(g, Slot::Player2)
}

/// The marker a player leaves on the grid: `true` selects the first player.
pub open spec fn marker_of(player: bool) -> Slot {
    if player {
        Slot::Player1
    } else {
        Slot::Player2
    }
}

/// The coordinate of the one cell holding the player's marker. Meaningful
/// only on a board satisfying [`board_wf`].
pub open spec fn player_pos(g: Seq<Seq<Slot>>, player: bool) -> (int, int) {
    choose|r: int, c: int| only_at(g, marker_of(player), r, c)
}

/// What a move request yields on board `g`: the destination accepted for the
/// acting player, or the error. Failures are checked in this order: the raw
/// reference is parsed first, then the destination must be empty, then it
/// must lie within the move range of the player's current cell.
pub open spec fn move_check(g: Seq<Seq<Slot>>, player: bool, s: Seq<char>) -> Result<
    (int, int),
    DuelError,
> {
    match parse_view(s) {
        Err(e) => Err(e),
        Ok(p) => if g[p.0][p.1] != Slot::Empty {
            Err(DuelError::PositionOccupied)
        } else if dist_sq(player_pos(g, player).0, player_pos(g, player).1, p.0, p.1)
            > MOVE_RANGE_SQ {
            Err(DuelError::TooFar)
        } else {
            Ok(p)
        },
    }
}

/// The grid after an accepted move: the acting player's current cell is
/// cleared and the destination receives the player's marker.
pub open spec fn move_applied(g: Seq<Seq<Slot>>, player: bool, row: int, col: int) -> Seq<
    Seq<Slot>,
> {
    let pr = player_pos(g, player).0;
    let pc = player_pos(g, player).1;
    let cleared = g.update(pr, g[pr].update(pc, Slot::Empty));
    cleared.update(row, cleared[row].update(col, marker_of(player)))
}

/// The playing field. Owns the grid of cells; every public operation
/// preserves [`board_wf`].
pub struct Board {
    tiles: Vec<Vec<Slot>>,
}

impl View for Board {
    type V = Seq<Seq<Slot>>;

    closed spec fn view(&self) -> Seq<Seq<Slot>> {
        Seq::new(self.tiles@.len(), |i: int| self.tiles@[i]@)
    }
}

/// Row of the first player's starting cell.
pub const P1_START_ROW: usize = 3;

/// Column of the first player's starting cell.
pub const P1_START_COL: usize = 1;

/// Row of the second player's starting cell.
pub const P2_START_ROW: usize = 3;

/// Column of the second player's starting cell.
pub const P2_START_COL: usize = 10;

impl Board {
    /// A fresh field: all cells empty except the two fixed, distinct
    /// starting cells of the players.
    pub fn new() -> (b: Board)
        ensures
            board_wf(b@),
            only_at(b@, Slot::Player1, P1_START_ROW as int, P1_START_COL as int),
            only_at(b@, Slot::Player2, P2_START_ROW as int, P2_START_COL as int),
            forall|r: int, c: int|
                0 <= r < ROWS && 0 <= c < COLS && !(r == P1_START_ROW && c == P1_START_COL)
                    && !(r == P2_START_ROW && c == P2_START_COL) ==> b@[r][c] == Slot::Empty,
    {
        let mut tiles: Vec<Vec<Slot>> = Vec::new();
        while tiles.len() < ROWS
            invariant
                tiles@.len() <= ROWS,
                forall|i: int|
                    0 <= i < tiles@.len() ==> (#[trigger] tiles@[i])@.len() == COLS,
                forall|i: int, j: int|
                    0 <= i < tiles@.len() && 0 <= j < COLS ==> #[trigger] tiles@[i]@[j]
                        == Slot::Empty,
            decreases ROWS - tiles.len(),
        {
            let mut row: Vec<Slot> = Vec::new();
            while row.len() < COLS
                invariant
                    row@.len() <= COLS,
                    forall|j: int| 0 <= j < row@.len() ==> row@[j] == Slot::Empty,
                decreases COLS - row.len(),
            {
                row.push(Slot::Empty);
            }
            tiles.push(row);
        }
        let mut b = Board { tiles };
        proof {
            assert(forall|i: int| 0 <= i < ROWS ==> b@[i] == #[trigger] b.tiles@[i]@);
        }
        b.set_cell(P1_START_ROW, P1_START_COL, Slot::Player1);
        b.set_cell(P2_START_ROW, P2_START_COL, Slot::Player2);
        proof {
            let g = b@;
            assert forall|r: int, c: int| is_at(g, Slot::Player1, r, c) implies r
                == P1_START_ROW && c == P1_START_COL by {
                assert(g[r][c] == Slot::Player1);
            }
            assert forall|r: int, c: int| is_at(g, Slot::Player2, r, c) implies r
                == P2_START_ROW && c == P2_START_COL by {
                assert(g[r][c] == Slot::Player2);
            }
            assert(only_at(g, Slot::Player1, P1_START_ROW as int, P1_START_COL as int));
            assert(only_at(g, Slot::Player2, P2_START_ROW as int, P2_START_COL as int));
        }
        b
    }

    /// Write `s` into cell `(r, c)`, leaving every other cell unchanged.
    fn set_cell(&mut self, r: usize, c: usize, s: Slot)
        requires
            grid_dims(old(self)@),
            r < ROWS,
            c < COLS,
        ensures
            grid_dims(final(self)@),
            final(self)@ == old(self)@.update(
                r as int,
                old(self)@[r as int].update(c as int, s),
            ),
    {
        proof {
            assert(old(self)@[r as int] == old(self).tiles@[r as int]@);
            assert(old(self)@[r as int].len() == COLS);
        }
        let row: &mut Vec<Slot> = &mut self.tiles[r];
        row.set(c, s);
        proof {
            assert(self@ =~= old(self)@.update(
                r as int,
                old(self)@[r as int].update(c as int, s),
            ));
        }
    }

    /// Read the state of cell `(r, c)`.
    pub fn get_cell(&self, r: usize, c: usize) -> (s: Slot)
        requires
            grid_dims(self@),
            r < ROWS,
            c < COLS,
        ensures
            s == self@[r as int][c as int],
    {
        proof {
            assert(self@[r as int] == self.tiles@[r as int]@);
        }
        self.tiles[r][c]
    }

    /// Locate the acting player's marker by a row-major scan of the grid.
    /// Returns the first matching cell, or `None` when the marker is absent.
    pub fn find_player(&self, player: bool) -> (r: Option<(usize, usize)>)
        requires
            grid_dims(self@),
        ensures
            match r {
                Some(p) => {
                    &&& is_at(self@, marker_of(player), p.0 as int, p.1 as int)
                    &&& forall|r2: int, c2: int|
                        is_at(self@, marker_of(player), r2, c2) ==> r2 > p.0 || (r2 == p.0
                            && c2 >= p.1)
                },
                None => forall|r2: int, c2: int| !is_at(self@, marker_of(player), r2, c2),
            },
    {
        let target = if player {
            Slot::Player1
        } else {
            Slot::Player2
        };
        let mut i: usize = 0;
        while i < ROWS
            invariant
                grid_dims(self@),
                target == marker_of(player),
                i <= ROWS,
                forall|r2: int, c2: int|
                    0 <= r2 < i && 0 <= c2 < COLS ==> #[trigger] self@[r2][c2] != marker_of(
                        player,
                    ),
            decreases ROWS - i,
        {
            let mut j: usize = 0;
            while j < COLS
                invariant
                    grid_dims(self@),
                    target == marker_of(player),
                    i < ROWS,
                    j <= COLS,
                    forall|r2: int, c2: int|
                        0 <= r2 < i && 0 <= c2 < COLS ==> #[trigger] self@[r2][c2] != marker_of(
                            player,
                        ),
                    forall|c2: int|
                        0 <= c2 < j ==> #[trigger] self@[i as int][c2] != marker_of(player),
                decreases COLS - j,
            {
                if self.get_cell(i, j) == target {
                    return Some((i, j));
                }
                j += 1;
            }
            i += 1;
        }
        None
    }

    /// The acting player's current cell. On a well-formed board the marker
    /// is always present, so this cannot fail.
    pub fn locate_player(&self, player: bool) -> (p: (usize, usize))
        requires
            board_wf(self@),
        ensures
            (p.0 as int, p.1 as int) == player_pos(self@, player),
            p.0 < ROWS,
            p.1 < COLS,
    {
        proof {
            let (pr, pc) = player_pos(self@, player);
            assert(only_at(self@, marker_of(player), pr, pc));
        }
        match self.find_player(player) {
            Some(p) => p,
            None => unreached(),
        }
    }

    /// Move the acting player to the cell named by `pos`.
    ///
    /// Validation is front-loaded: the reference is parsed, the destination
    /// must be empty and within the move range, all before any mutation, so a
    /// rejected move leaves the board exactly as it was. On success the
    /// player's old cell is cleared and the destination receives the marker;
    /// no other cell changes.
    pub fn move_player(&mut self, player: bool, pos: &str) -> (r: Result<(), DuelError>)
        requires
            board_wf(old(self)@),
        ensures
            board_wf(final(self)@),
            match move_check(old(self)@, player, pos@) {
                Ok(p) => r == Ok::<(), DuelError>(()) && final(self)@ == move_applied(
                    old(self)@,
                    player,
                    p.0,
                    p.1,
                ),
                Err(e) => r == Err::<(), DuelError>(e) && final(self)@ == old(self)@,
            },
    {
        let (row, col) = match parse_pos(pos) {
            Ok(p) => p,
            Err(e) => {
                return Err(e);
            },
        };
        if self.get_cell(row, col) != Slot::Empty {
            return Err(DuelError::PositionOccupied);
        }
        let (cur_row, cur_col) = self.locate_player(player);
        let d = distance_sq(cur_row, cur_col, row, col);
        if d > MOVE_RANGE_SQ {
            return Err(DuelError::TooFar);
        }
        let target = if player {
            Slot::Player1
        } else {
            Slot::Player2
        };
        self.set_cell(cur_row, cur_col, Slot::Empty);
        self.set_cell(row, col, target);
        proof {
            lemma_move_preserves_wf(old(self)@, player, row as int, col as int);
        }
        Ok(())
    }
}

/// A valid move preserves the board invariant: after the move the mover's
/// marker sits exactly once, at the destination, and the opponent's marker is
/// untouched at its old cell.
pub proof fn lemma_move_preserves_wf(g: Seq<Seq<Slot>>, player: bool, row: int, col: int)
    requires
        board_wf(g),
        0 <= row < ROWS,
        0 <= col < COLS,
        g[row][col] == Slot::Empty,
    ensures
        board_wf(move_applied(g, player, row, col)),
        only_at(move_applied(g, player, row, col), marker_of(player), row, col),
        only_at(
            move_applied(g, player, row, col),
            marker_of(!player),
            player_pos(g, !player).0,
            player_pos(g, !player).1,
        ),
{
    let m = marker_of(player);
    let o = marker_of(!player);
    let (pr, pc) = player_pos(g, player);
    let (qr, qc) = player_pos(g, !player);
    assert(only_at(g, m, pr, pc));
    assert(only_at(g, o, qr, qc));
    let g2 = move_applied(g, player, row, col);
    assert(m != Slot::Empty && o != Slot::Empty && m != o);
    assert(!(pr == row && pc == col));
    assert(!(qr == row && qc == col) && !(qr == pr && qc == pc));
    assert(grid_dims(g2));
    assert forall|r2: int, c2: int| 0 <= r2 < ROWS && 0 <= c2 < COLS implies #[trigger] g2[r2][c2]
        == (if r2 == row && c2 == col {
        m
    } else if r2 == pr && c2 == pc {
        Slot::Empty
    } else {
        g[r2][c2]
    }) by {
        let cleared = g.update(pr, g[pr].update(pc, Slot::Empty));
        assert(cleared[r2][c2] == (if r2 == pr && c2 == pc {
            Slot::Empty
        } else {
            g[r2][c2]
        }));
    }
    assert forall|r2: int, c2: int| is_at(g2, m, r2, c2) implies r2 == row && c2 == col by {
        if !(r2 == row && c2 == col) && !(r2 == pr && c2 == pc) {
            assert(g[r2][c2] == m);
            assert(is_at(g, m, r2, c2));
        }
    }
    assert forall|r2: int, c2: int| is_at(g2, o, r2, c2) implies r2 == qr && c2 == qc by {
        if !(r2 == row && c2 == col) && !(r2 == pr && c2 == pc) {
            assert(g[r2][c2] == o);
            assert(is_at(g, o, r2, c2));
        }
    }
    assert(is_at(g2, m, row, col));
    assert(is_at(g2, o, qr, qc));
    assert(only_at(g2, m, row, col));
    assert(only_at(g2, o, qr, qc));
}

/// An accepted move changes exactly two cells: the destination receives the
/// mover's marker, the mover's previous cell becomes empty, and every other
/// cell keeps its old state.
pub proof fn lemma_move_changes_two_cells(g: Seq<Seq<Slot>>, player: bool, row: int, col: int)
    requires
        board_wf(g),
        0 <= row < ROWS,
        0 <= col < COLS,
        g[row][col] == Slot::Empty,
    ensures
        ({
            let g2 = move_applied(g, player, row, col);
            let p = player_pos(g, player);
            &&& g2[row][col] == marker_of(player)
            &&& g2[p.0][p.1] == Slot::Empty
            &&& forall|r2: int, c2: int|
                0 <= r2 < ROWS && 0 <= c2 < COLS && !(r2 == row && c2 == col) && !(r2 == p.0
                    && c2 == p.1) ==> #[trigger] g2[r2][c2] == g[r2][c2]
        }),
{
    let m = marker_of(player);
    let (pr, pc) = player_pos(g, player);
    assert(only_at(g, m, pr, pc));
    assert(!(pr == row && pc == col));
    let g2 = move_applied(g, player, row, col);
    assert forall|r2: int, c2: int| 0 <= r2 < ROWS && 0 <= c2 < COLS implies #[trigger] g2[r2][c2]
        == (if r2 == row && c2 == col {
        m
    } else if r2 == pr && c2 == pc {
        Slot::Empty
    } else {
        g[r2][c2]
    }) by {
        let cleared = g.update(pr, g[pr].update(pc, Slot::Empty));
        assert(cleared[r2][c2] == (if r2 == pr && c2 == pc {
            Slot::Empty
        } else {
            g[r2][c2]
        }));
    }
}

/// A well-formed move request whose destination cell is not empty is
/// rejected as `PositionOccupied`, whoever acts and wherever they stand.
pub proof fn lemma_occupied_rejected(
    g: Seq<Seq<Slot>>,
    player: bool,
    s: Seq<char>,
    row: int,
    col: int,
)
    requires
        parse_view(s) == Ok::<(int, int), DuelError>((row, col)),
        g[row][col] != Slot::Empty,
    ensures
        move_check(g, player, s) == Err::<(int, int), DuelError>(DuelError::PositionOccupied),
{
}

/// A well-formed move request to an empty destination farther than the move
/// range from the acting player's cell is rejected as `TooFar`.
pub proof fn lemma_too_far_rejected(
    g: Seq<Seq<Slot>>,
    player: bool,
    s: Seq<char>,
    row: int,
    col: int,
)
    requires
        parse_view(s) == Ok::<(int, int), DuelError>((row, col)),
        g[row][col] == Slot::Empty,
        dist_sq(player_pos(g, player).0, player_pos(g, player).1, row, col) > MOVE_RANGE_SQ,
    ensures
        move_check(g, player, s) == Err::<(int, int), DuelError>(DuelError::TooFar),
{
}

} // verus!
