//! The duel: two player records, one board, and the action dispatcher the
//! surrounding turn loop calls once per received action.

use vstd::prelude::*;

use crate::board::Board;
use crate::board::board_wf;
use crate::board::move_applied;
use crate::board::move_check;
use crate::board::only_at;
use crate::board::player_pos;
use crate::board::P1_START_COL;
use crate::board::P1_START_ROW;
use crate::board::P2_START_COL;
use crate::board::P2_START_ROW;
use crate::grid::COLS;
use crate::grid::DuelError;
use crate::grid::ROWS;
use crate::grid::Slot;
use crate::grid::dist_sq;
use crate::grid::distance_sq;
use crate::render::render_view;

verus! {

/// Health every player starts a duel with.
pub const START_HEALTH: u32 = 100;

/// Fixed damage one successful attack deals.
pub const ATTACK_DAMAGE: u32 = 10;

/// Largest squared distance between the two players at which an attack
/// lands: the opposing player must stand on an adjacent cell, diagonals
/// included.
pub const ATTACK_RANGE_SQ: u64 = 2;

/// One participant: an opaque external identity and a health total.
pub struct Player {
    /// The caller's handle for this participant; the engine never interprets
    /// it.
    pub id: u64,
    /// Remaining health; never goes below zero.
    pub health: u32,
}

/// Health after one hit: the damage is subtracted, saturating at zero.
pub open spec fn damaged(health: u32, amount: u32) -> u32 {
    if health >= amount {
        (health - amount) as u32
    } else {
        0u32
    }
}

/// Damage saturates instead of wrapping: two hits in sequence clamp at zero
/// exactly as their combined total would, so no cumulative damage can drive
/// health below zero.
pub proof fn lemma_damage_accumulates(health: u32, first: u32, second: u32)
    ensures
        damaged(damaged(health, first), second) as int == if health as int - first - second
            >= 0 {
            health as int - first - second
        } else {
            0
        },
{
}

impl Player {
    /// Subtract `amount` from this player's health, saturating at zero:
    /// cumulative damage can never drive health negative or wrap around.
    pub fn damage(&mut self, amount: u32)
        ensures
            final(self).health == damaged(old(self).health, amount),
            final(self).id == old(self).id,
    {
        self.health = if self.health >= amount {
            self.health - amount
        } else {
            0
        };
    }
}

/// What a player may do with their turn.
pub enum Action {
    /// Strike the opposing player; lands only when the opponent is adjacent.
    Attack,
    /// Step to a named cell within the move range.
    Move,
    /// Reserved for item and ability effects; currently has no effect.
    Use,
}

/// One match session pairing two identities against one board.
///
/// The duel is advanced strictly one action at a time through
/// [`Duel::input_action`]; waiting for input and alternating between the two
/// identities is the caller's concern. The duel is concluded once either
/// player's health reaches zero ([`Duel::is_concluded`]); the caller must
/// stop submitting actions then.
pub struct Duel {
    /// The inviting participant, acting as the first player.
    pub inviter: Player,
    /// The invited participant, acting as the second player.
    pub invitee: Player,
    /// The playing field both players move on.
    pub board: Board,
}

impl Duel {
    /// The cell states of the owned board.
    pub open spec fn grid(&self) -> Seq<Seq<Slot>> {
        self.board@
    }

    /// The duel invariant: the board is well formed, so each player's marker
    /// sits on exactly one cell.
    pub open spec fn wf(&self) -> bool {
        board_wf(self.grid())
    }

    /// True once the duel has reached its terminal state: either player's
    /// health is exhausted.
    pub open spec fn spec_concluded(&self) -> bool {
        self.inviter.health == 0 || self.invitee.health == 0
    }

    /// A fresh duel between the two identities: both players at full health,
    /// markers on the fixed, distinct starting cells.
    pub fn new(inviter: u64, invitee: u64) -> (d: Duel)
        ensures
            d.wf(),
            d.inviter.id == inviter,
            d.invitee.id == invitee,
            d.inviter.health == START_HEALTH,
            d.invitee.health == START_HEALTH,
            only_at(d.grid(), Slot::Player1, P1_START_ROW as int, P1_START_COL as int),
            only_at(d.grid(), Slot::Player2, P2_START_ROW as int, P2_START_COL as int),
            forall|r: int, c: int|
                0 <= r < ROWS && 0 <= c < COLS && !(r == P1_START_ROW && c == P1_START_COL)
                    && !(r == P2_START_ROW && c == P2_START_COL) ==> d.grid()[r][c]
                    == Slot::Empty,
    {
        Duel {
            inviter: Player { id: inviter, health: START_HEALTH },
            invitee: Player { id: invitee, health: START_HEALTH },
            board: Board::new(),
        }
    }

    /// Render the owned board as a text grid, exactly as
    /// [`crate::render::render_view`] describes.
    pub fn get_board(&self) -> (r: String)
        requires
            self.wf(),
        ensures
            r@ == render_view(self.grid()),
    {
        self.board.get_string()
    }

    /// Early sketch of the per-turn dispatcher, kept for compatibility. It
    /// recognizes every action kind and does nothing with any of them;
    /// [`Duel::input_action`] is the entry point that mutates the duel.
    pub fn play(player: bool, action: Action) {
        match action {
            Action::Attack => {
            },
            Action::Move => {
            },
            Action::Use => {
            },
        }
    }

    /// True once either player's health is exhausted; the caller's turn loop
    /// terminates the duel on this condition.
    pub fn is_concluded(&self) -> (b: bool)
        ensures
            b == self.spec_concluded(),
    {
        self.inviter.health == 0 || self.invitee.health == 0
    }

    /// The squared distance between the two players' cells.
    pub open spec fn players_dist_sq(g: Seq<Seq<Slot>>) -> int {
        dist_sq(
            player_pos(g, true).0,
            player_pos(g, true).1,
            player_pos(g, false).0,
            player_pos(g, false).1,
        )
    }

    /// True when the two players stand close enough for an attack to land.
    pub open spec fn attack_in_range(g: Seq<Seq<Slot>>) -> bool {
        Self::players_dist_sq(g) <= ATTACK_RANGE_SQ
    }

    /// Submit one action for one player: the single mutating entry point the
    /// turn loop calls each turn.
    ///
    /// - `Action::Move` steps the acting player to the cell named by
    ///   `target_cell`, exactly as [`move_check`] and [`move_applied`]
    ///   describe; health is untouched either way.
    /// - `Action::Attack` strikes the opposing player for [`ATTACK_DAMAGE`]
    ///   (saturating at zero health) when the opponent stands on an adjacent
    ///   cell, diagonals included; otherwise it fails with `OutOfRange`. The
    ///   board is untouched either way, and `target_cell` is ignored: the
    ///   only possible target is the adjacent opponent.
    /// - `Action::Use` is reserved and changes nothing.
    ///
    /// On `Err` nothing has changed and the acting player retries; on `Ok`
    /// the turn is consumed and the caller hands the turn to the other
    /// player.
    pub fn input_action(
        &mut self,
        is_player_one: bool,
        action: Action,
        target_cell: &str,
    ) -> (r: Result<(), DuelError>)
        requires
            old(self).wf(),
        ensures
            final(self).wf(),
            final(self).inviter.id == old(self).inviter.id,
            final(self).invitee.id == old(self).invitee.id,
            match action {
                Action::Move => {
                    &&& final(self).inviter.health == old(self).inviter.health
                    &&& final(self).invitee.health == old(self).invitee.health
                    &&& match move_check(old(self).grid(), is_player_one, target_cell@) {
                        Ok(p) => r == Ok::<(), DuelError>(()) && final(self).grid()
                            == move_applied(old(self).grid(), is_player_one, p.0, p.1),
                        Err(e) => r == Err::<(), DuelError>(e) && final(self).grid()
                            == old(self).grid(),
                    }
                },
                Action::Attack => {
                    &&& final(self).grid() == old(self).grid()
                    &&& if Self::attack_in_range(old(self).grid()) {
                        &&& r == Ok::<(), DuelError>(())
                        &&& if is_player_one {
                            &&& final(self).inviter == old(self).inviter
                            &&& final(self).invitee.health == damaged(
                                old(self).invitee.health,
                                ATTACK_DAMAGE,
                            )
                            &&& final(self).invitee.id == old(self).invitee.id
                        } else {
                            &&& final(self).invitee == old(self).invitee
                            &&& final(self).inviter.health == damaged(
                                old(self).inviter.health,
                                ATTACK_DAMAGE,
                            )
                            &&& final(self).inviter.id == old(self).inviter.id
                        }
                    } else {
                        &&& r == Err::<(), DuelError>(DuelError::OutOfRange)
                        &&& final(self).inviter == old(self).inviter
                        &&& final(self).invitee == old(self).invitee
                    }
                },
                Action::Use => {
                    &&& r == Ok::<(), DuelError>(())
                    &&& *final(self) == *old(self)
                },
            },
    {
        match action {
            Action::Move => self.board.move_player(is_player_one, target_cell),
            Action::Attack => {
                let (p1_row, p1_col) = self.board.locate_player(true);
                let (p2_row, p2_col) = self.board.locate_player(false);
                let d = distance_sq(p1_row, p1_col, p2_row, p2_col);
                if d > ATTACK_RANGE_SQ {
                    return Err(DuelError::OutOfRange);
                }
                if is_player_one {
                    self.invitee.damage(ATTACK_DAMAGE);
                } else {
                    self.inviter.damage(ATTACK_DAMAGE);
                }
                Ok(())
            },
            Action::Use => Ok(()),
        }
    }
}

} // verus!
