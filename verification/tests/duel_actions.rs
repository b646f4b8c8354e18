use duel_engine::duel::Action;
use duel_engine::duel::Duel;
use duel_engine::duel::Player;
use duel_engine::grid::DuelError;

#[test]
fn new_duel_records_identities_and_full_health() {
    let d = Duel::new(7, 9);
    assert_eq!(d.inviter.id, 7);
    assert_eq!(d.invitee.id, 9);
    assert_eq!(d.inviter.health, 100);
    assert_eq!(d.invitee.health, 100);
    assert!(!d.is_concluded());
}

#[test]
fn fresh_duel_renders_exactly_two_markers() {
    let d = Duel::new(1, 2);
    let s = d.get_board();
    assert_eq!(s.matches(":sunglasses:").count(), 1);
    assert_eq!(s.matches(":smiling_imp:").count(), 1);
    // Every remaining cell is drawn empty: 7 rows of 12 cells, two taken.
    assert_eq!(s.matches(":brown_square:").count(), 82);
}

#[test]
fn damage_is_saturating_not_wrapping() {
    let mut p = Player { id: 1, health: 100 };
    p.damage(30);
    assert_eq!(p.health, 70);
    p.damage(30);
    p.damage(30);
    assert_eq!(p.health, 10);
    p.damage(30);
    assert_eq!(p.health, 0);
    p.damage(u32::MAX);
    assert_eq!(p.health, 0);
}

#[test]
fn damage_by_more_than_health_clamps_to_zero() {
    let mut p = Player { id: 4, health: 5 };
    p.damage(u32::MAX);
    assert_eq!(p.health, 0);
}

#[test]
fn move_action_updates_board_and_keeps_health() {
    let mut d = Duel::new(1, 2);
    let before = d.get_board();
    assert_eq!(d.input_action(true, Action::Move, "C4"), Ok(()));
    assert_ne!(d.get_board(), before);
    assert_eq!(d.inviter.health, 100);
    assert_eq!(d.invitee.health, 100);
}

#[test]
fn rejected_move_leaves_duel_unchanged_for_retry() {
    let mut d = Duel::new(1, 2);
    let before = d.get_board();
    assert_eq!(d.input_action(true, Action::Move, "K4"), Err(DuelError::PositionOccupied));
    assert_eq!(d.get_board(), before);
    assert_eq!(d.input_action(true, Action::Move, "D2"), Err(DuelError::TooFar));
    assert_eq!(d.get_board(), before);
    // The same player retries and succeeds.
    assert_eq!(d.input_action(true, Action::Move, "C4"), Ok(()));
}

#[test]
fn attack_from_the_start_cells_is_out_of_range() {
    let mut d = Duel::new(1, 2);
    assert_eq!(d.input_action(true, Action::Attack, ""), Err(DuelError::OutOfRange));
    assert_eq!(d.inviter.health, 100);
    assert_eq!(d.invitee.health, 100);
}

#[test]
fn adjacent_attack_deals_fixed_damage() {
    let mut d = Duel::new(1, 2);
    // Walk the first player next to the second: each step covers a squared
    // distance of four, the move-range limit.
    for cell in ["D4", "F4", "H4", "J4"] {
        assert_eq!(d.input_action(true, Action::Move, cell), Ok(()));
    }
    assert_eq!(d.input_action(true, Action::Attack, ""), Ok(()));
    assert_eq!(d.invitee.health, 90);
    assert_eq!(d.inviter.health, 100);
    // The defender can strike back from the same adjacency.
    assert_eq!(d.input_action(false, Action::Attack, ""), Ok(()));
    assert_eq!(d.inviter.health, 90);
}

#[test]
fn repeated_attacks_conclude_the_duel() {
    let mut d = Duel::new(1, 2);
    for cell in ["D4", "F4", "H4", "J4"] {
        assert_eq!(d.input_action(true, Action::Move, cell), Ok(()));
    }
    for _ in 0..9 {
        assert_eq!(d.input_action(true, Action::Attack, ""), Ok(()));
        assert!(!d.is_concluded());
    }
    assert_eq!(d.input_action(true, Action::Attack, ""), Ok(()));
    assert_eq!(d.invitee.health, 0);
    assert!(d.is_concluded());
}

#[test]
fn use_action_changes_nothing() {
    let mut d = Duel::new(1, 2);
    let before = d.get_board();
    assert_eq!(d.input_action(true, Action::Use, "A1"), Ok(()));
    assert_eq!(d.get_board(), before);
    assert_eq!(d.inviter.health, 100);
    assert_eq!(d.invitee.health, 100);
}

#[test]
fn play_accepts_every_action_kind() {
    Duel::play(true, Action::Attack);
    Duel::play(false, Action::Move);
    Duel::play(true, Action::Use);
}
