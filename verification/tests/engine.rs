use blocker_duel::{AppState, Config, Event, GameError, VariantCfg};
use sha2::Digest;

const A: [u8; 32] = [1u8; 32];
const B: [u8; 32] = [2u8; 32];

fn commitment(variant: u8, x: i64, y: i64, secret: &str) -> String {
    let mut hasher = sha2::Sha256::new();
    hasher.update(format!("{variant}:{x}:{y}:{secret}"));
    let digest = hasher.finalize();
    let mut out = String::new();
    for byte in digest.as_slice() {
        out.push_str(&format!("{:02x}", byte));
    }
    out
}

fn started() -> AppState {
    let mut s = AppState::init();
    assert_eq!(s.start_room(A), Ok(vec![Event::PlayerReady { player_id: 0 }]));
    assert_eq!(s.join_room(B), Ok(vec![Event::PlayerReady { player_id: 1 }]));
    s
}

fn small_config(budget: u32, variants: Vec<VariantCfg>) -> Config {
    Config {
        board: 11,
        health: 15,
        budget,
        step: 3,
        join_self_confirms: true,
        variants,
    }
}

#[test]
fn start_join_handshake() {
    let mut s = AppState::init();
    assert_eq!(*s.get_round(), 0);
    assert_eq!(s.start_room(A), Ok(vec![Event::PlayerReady { player_id: 0 }]));
    assert_eq!(s.start_room(B), Err(GameError::AlreadyStarted));
    assert_eq!(s.join_room(B), Ok(vec![Event::PlayerReady { player_id: 1 }]));
    assert_eq!(s.join_room(B), Err(GameError::SeatTaken));
    let (p1, p2) = s.get_players_state();
    assert!(p1.is_ready && p2.is_ready);
    assert_eq!(p1.health, 15);
    assert_eq!(p2.health, 15);
    assert_eq!(p1.remaining_blocker, 36);
    assert_eq!((p1.position.x, p1.position.y), (0, 0));
    assert_eq!((p2.position.x, p2.position.y), (11, 11));
    assert_eq!(*s.get_round(), 0);
}

#[test]
fn join_before_start_fails() {
    let mut s = AppState::init();
    assert_eq!(s.join_room(B), Err(GameError::NotReady));
}

#[test]
fn move_before_both_ready_fails() {
    let mut s = AppState::init();
    s.start_room(A).unwrap();
    assert_eq!(s.take_move_chance(A, 1, 1), Err(GameError::NotReady));
}

#[test]
fn turns_alternate_and_wrong_turn_fails() {
    let mut s = started();
    assert_eq!(s.take_move_chance(B, 10, 10), Err(GameError::WrongTurn));
    assert_eq!(*s.get_round(), 0);
    assert_eq!(
        s.take_move_chance(A, 1, 1),
        Ok(vec![Event::PlayerMoved { player_id: 0, x: 1, y: 1 }])
    );
    assert_eq!(*s.get_round(), 1);
    assert_eq!(s.take_move_chance(A, 2, 2), Err(GameError::WrongTurn));
    assert_eq!(
        s.take_move_chance(B, 10, 10),
        Ok(vec![Event::PlayerMoved { player_id: 1, x: 10, y: 10 }])
    );
    assert_eq!(*s.get_round(), 2);
}

#[test]
fn step_size_is_bounded() {
    let mut s = started();
    assert_eq!(s.take_move_chance(A, 4, 0), Err(GameError::InvalidPosition));
    assert_eq!(s.take_move_chance(A, 0, 4), Err(GameError::InvalidPosition));
    // state untouched by a rejected move
    assert_eq!(*s.get_round(), 0);
    assert_eq!((s.get_players_state().0.position.x, s.get_players_state().0.position.y), (0, 0));
    assert_eq!(
        s.take_move_chance(A, 3, 3),
        Ok(vec![Event::PlayerMoved { player_id: 0, x: 3, y: 3 }])
    );
}

#[test]
fn board_bounds_are_enforced() {
    let mut s = started();
    assert_eq!(s.take_move_chance(A, -1, 0), Err(GameError::InvalidPosition));
    s.take_move_chance(A, 0, 0).unwrap();
    // player 2 sits at the far corner; coordinates past the board are refused
    assert_eq!(s.take_move_chance(B, 12, 11), Err(GameError::InvalidPosition));
    assert_eq!(s.take_move_chance(B, 11, 14), Err(GameError::InvalidPosition));
}

#[test]
fn budget_is_exactly_spent() {
    let cfg = small_config(
        2,
        vec![VariantCfg { damage: 0, lock: 1, critical_lock: 2, cap: 15 }],
    );
    let mut s = AppState::init_with_config(cfg);
    s.start_room(A).unwrap();
    s.join_room(B).unwrap();
    assert_eq!(
        s.place_blocker(A, commitment(0, 5, 5, "one")),
        Ok(vec![Event::BlockerPlaced { player_id: 0 }])
    );
    assert_eq!(s.get_players_state().0.remaining_blocker, 1);
    s.take_move_chance(B, 10, 10).unwrap();
    assert_eq!(
        s.place_blocker(A, commitment(0, 6, 6, "two")),
        Ok(vec![Event::BlockerPlaced { player_id: 0 }])
    );
    assert_eq!(s.get_players_state().0.remaining_blocker, 0);
    s.take_move_chance(B, 9, 9).unwrap();
    assert_eq!(
        s.place_blocker(A, commitment(0, 7, 7, "three")),
        Err(GameError::NoBudget)
    );
    assert_eq!(s.get_players_state().0.remaining_blocker, 0);
}

#[test]
fn duplicate_commitment_rejected() {
    let mut s = started();
    let c = commitment(0, 5, 5, "s");
    s.place_blocker(A, c.clone()).unwrap();
    assert_eq!(s.place_blocker(B, c), Err(GameError::DuplicateCommitment));
    let (_, p2) = s.get_players_state();
    assert_eq!(p2.remaining_blocker, 36);
}

#[test]
fn commit_reveal_scenario() {
    // start -> join -> handshake -> place -> approach -> reveal -> repeat fails
    let mut s = started();
    let c = commitment(1, 5, 5, "s");
    assert_eq!(
        s.place_blocker(A, c.clone()),
        Ok(vec![Event::BlockerPlaced { player_id: 0 }])
    );
    assert_eq!(s.get_players_state().0.remaining_blocker, 35);
    s.take_move_chance(B, 8, 8).unwrap();
    s.take_move_chance(A, 1, 1).unwrap();
    s.take_move_chance(B, 5, 5).unwrap();
    assert_eq!(
        s.inform_blocker(A, 1, 5, 5, c.clone(), "s".to_string()),
        Ok(vec![Event::BlockerRevealed { x: 5, y: 5, variant: 1 }])
    );
    let (_, p2) = s.get_players_state();
    assert_eq!(p2.health, 10);
    assert_eq!(p2.locked_count, 0);
    // a resolved blocker can never be revealed again
    assert_eq!(
        s.inform_blocker(A, 1, 5, 5, c, "s".to_string()),
        Err(GameError::UnknownOrResolvedTrap)
    );
}

#[test]
fn reveal_proof_mismatch_on_any_mutation() {
    let mut s = started();
    let c = commitment(1, 5, 5, "s");
    s.place_blocker(A, c.clone()).unwrap();
    s.take_move_chance(B, 8, 8).unwrap();
    s.take_move_chance(A, 1, 1).unwrap();
    s.take_move_chance(B, 5, 5).unwrap();
    assert_eq!(
        s.inform_blocker(A, 2, 5, 5, c.clone(), "s".to_string()),
        Err(GameError::ProofMismatch)
    );
    assert_eq!(
        s.inform_blocker(A, 1, 6, 5, c.clone(), "s".to_string()),
        Err(GameError::ProofMismatch)
    );
    assert_eq!(
        s.inform_blocker(A, 1, 5, 6, c.clone(), "s".to_string()),
        Err(GameError::ProofMismatch)
    );
    assert_eq!(
        s.inform_blocker(A, 1, 5, 5, c.clone(), "t".to_string()),
        Err(GameError::ProofMismatch)
    );
    // the untouched arguments still prove the blocker
    assert!(s.inform_blocker(A, 1, 5, 5, c, "s".to_string()).is_ok());
}

#[test]
fn reveal_unknown_commitment_fails() {
    let mut s = started();
    let c = commitment(1, 11, 11, "never-placed");
    assert_eq!(
        s.inform_blocker(A, 1, 11, 11, c, "never-placed".to_string()),
        Err(GameError::UnknownOrResolvedTrap)
    );
}

#[test]
fn reveal_target_mismatch() {
    let mut s = started();
    let c = commitment(1, 9, 9, "s");
    s.place_blocker(A, c.clone()).unwrap();
    s.take_move_chance(B, 8, 8).unwrap();
    assert_eq!(
        s.inform_blocker(A, 1, 9, 9, c, "s".to_string()),
        Err(GameError::TargetMismatch)
    );
}

#[test]
fn variant_cap_reached() {
    let cfg = small_config(
        36,
        vec![VariantCfg { damage: 0, lock: 1, critical_lock: 2, cap: 1 }],
    );
    let mut s = AppState::init_with_config(cfg);
    s.start_room(A).unwrap();
    s.join_room(B).unwrap();
    let c1 = commitment(0, 8, 8, "one");
    let c2 = commitment(0, 8, 8, "two");
    s.place_blocker(A, c1.clone()).unwrap();
    s.take_move_chance(B, 8, 8).unwrap();
    s.place_blocker(A, c2.clone()).unwrap();
    s.take_move_chance(B, 8, 8).unwrap();
    assert_eq!(
        s.inform_blocker(A, 0, 8, 8, c1, "one".to_string()),
        Ok(vec![
            Event::PlayerLocked { player_id: 1 },
            Event::BlockerRevealed { x: 8, y: 8, variant: 0 },
        ])
    );
    assert_eq!(
        s.inform_blocker(A, 0, 8, 8, c2, "two".to_string()),
        Err(GameError::VariantCapReached)
    );
}

#[test]
fn lock_lifecycle() {
    // variant 2 locks for two turns without driving health critical
    let mut s = started();
    let c = commitment(2, 8, 8, "s");
    s.place_blocker(A, c.clone()).unwrap();
    s.take_move_chance(B, 8, 8).unwrap();
    assert_eq!(
        s.inform_blocker(A, 2, 8, 8, c, "s".to_string()),
        Ok(vec![
            Event::PlayerLocked { player_id: 1 },
            Event::BlockerRevealed { x: 8, y: 8, variant: 2 },
        ])
    );
    assert_eq!(s.get_players_state().1.health, 10);
    assert_eq!(s.get_players_state().1.locked_count, 2);
    s.take_move_chance(A, 1, 1).unwrap();
    // first locked turn: no movement, whatever was requested
    assert_eq!(
        s.take_move_chance(B, 0, 0),
        Ok(vec![Event::PlayerMoved { player_id: 1, x: 8, y: 8 }])
    );
    assert_eq!(s.get_players_state().1.locked_count, 1);
    assert_eq!((s.get_players_state().1.position.x, s.get_players_state().1.position.y), (8, 8));
    s.take_move_chance(A, 2, 2).unwrap();
    // second locked turn exhausts the lock; health was above critical, so no reset
    assert_eq!(
        s.take_move_chance(B, 0, 0),
        Ok(vec![
            Event::PlayerMoved { player_id: 1, x: 8, y: 8 },
            Event::PlayerUnlocked { player_id: 1 },
        ])
    );
    assert_eq!(s.get_players_state().1.locked_count, 0);
    assert_eq!(s.get_players_state().1.health, 10);
    s.take_move_chance(A, 3, 3).unwrap();
    // unlocked again: movement works
    assert_eq!(
        s.take_move_chance(B, 7, 7),
        Ok(vec![Event::PlayerMoved { player_id: 1, x: 7, y: 7 }])
    );
}

#[test]
fn critical_health_escalates_lock_and_resets() {
    // three variant-1 hits drive health 15 -> 10 -> 5 -> 0; the third applies
    // the critical lock of 3 turns, whose expiry restores health
    let mut s = started();
    let c1 = commitment(1, 8, 8, "one");
    let c2 = commitment(1, 8, 8, "two");
    let c3 = commitment(1, 8, 8, "three");
    s.place_blocker(A, c1.clone()).unwrap();
    s.take_move_chance(B, 8, 8).unwrap();
    s.inform_blocker(A, 1, 8, 8, c1, "one".to_string()).unwrap();
    s.take_move_chance(A, 1, 1).unwrap();
    s.take_move_chance(B, 8, 8).unwrap();
    s.place_blocker(A, c2.clone()).unwrap();
    s.take_move_chance(B, 8, 8).unwrap();
    s.inform_blocker(A, 1, 8, 8, c2, "two".to_string()).unwrap();
    assert_eq!(s.get_players_state().1.health, 5);
    s.place_blocker(A, c3.clone()).unwrap();
    s.take_move_chance(B, 8, 8).unwrap();
    assert_eq!(
        s.inform_blocker(A, 1, 8, 8, c3, "three".to_string()),
        Ok(vec![
            Event::PlayerLocked { player_id: 1 },
            Event::BlockerRevealed { x: 8, y: 8, variant: 1 },
        ])
    );
    assert_eq!(s.get_players_state().1.health, 0);
    assert_eq!(s.get_players_state().1.locked_count, 3);
    s.take_move_chance(A, 2, 2).unwrap();
    s.take_move_chance(B, 8, 8).unwrap();
    s.take_move_chance(A, 3, 3).unwrap();
    s.take_move_chance(B, 8, 8).unwrap();
    s.take_move_chance(A, 4, 4).unwrap();
    assert_eq!(
        s.take_move_chance(B, 8, 8),
        Ok(vec![
            Event::PlayerMoved { player_id: 1, x: 8, y: 8 },
            Event::PlayerUnlocked { player_id: 1 },
        ])
    );
    // the expiring lock found health at the critical floor and restored it
    assert_eq!(s.get_players_state().1.health, 15);
}

#[test]
fn win_detection_on_target_corner_only() {
    let cfg = Config {
        board: 2,
        health: 15,
        budget: 36,
        step: 3,
        join_self_confirms: true,
        variants: vec![VariantCfg { damage: 0, lock: 1, critical_lock: 2, cap: 15 }],
    };
    let mut s = AppState::init_with_config(cfg);
    s.start_room(A).unwrap();
    s.join_room(B).unwrap();
    // a non-corner landing wins nothing
    assert_eq!(
        s.take_move_chance(A, 1, 2),
        Ok(vec![Event::PlayerMoved { player_id: 0, x: 1, y: 2 }])
    );
    // the origin is seat 1's target corner
    assert_eq!(
        s.take_move_chance(B, 0, 0),
        Ok(vec![
            Event::PlayerMoved { player_id: 1, x: 0, y: 0 },
            Event::PlayerWon { player_id: 1 },
        ])
    );
    // the far corner is seat 0's target corner
    assert_eq!(
        s.take_move_chance(A, 2, 2),
        Ok(vec![
            Event::PlayerMoved { player_id: 0, x: 2, y: 2 },
            Event::PlayerWon { player_id: 0 },
        ])
    );
}

#[test]
fn confirmed_join_ruleset() {
    let cfg = Config {
        board: 11,
        health: 15,
        budget: 36,
        step: 3,
        join_self_confirms: false,
        variants: vec![VariantCfg { damage: 0, lock: 1, critical_lock: 2, cap: 15 }],
    };
    let mut s = AppState::init_with_config(cfg);
    assert_eq!(s.confirm_ready(), Err(GameError::NotReady));
    s.start_room(A).unwrap();
    // joining does not ready the seat yet, and emits nothing
    assert_eq!(s.join_room(B), Ok(vec![]));
    assert!(!s.get_players_state().1.is_ready);
    assert_eq!(s.take_move_chance(A, 1, 1), Err(GameError::NotReady));
    assert_eq!(s.confirm_ready(), Ok(vec![Event::PlayerReady { player_id: 1 }]));
    assert_eq!(s.confirm_ready(), Err(GameError::AlreadyStarted));
    assert!(s.get_players_state().1.is_ready);
    assert!(s.take_move_chance(A, 1, 1).is_ok());
}

#[test]
fn place_requires_turn_ownership() {
    let mut s = started();
    assert_eq!(
        s.place_blocker(B, commitment(0, 5, 5, "s")),
        Err(GameError::WrongTurn)
    );
    assert_eq!(s.get_players_state().1.remaining_blocker, 36);
}

#[test]
fn reveal_requires_turn_ownership() {
    let mut s = started();
    let c = commitment(1, 8, 8, "s");
    s.place_blocker(A, c.clone()).unwrap();
    s.take_move_chance(B, 8, 8).unwrap();
    // the round is even again, so seat 1 does not own the turn
    assert_eq!(
        s.inform_blocker(B, 1, 8, 8, c.clone(), "s".to_string()),
        Err(GameError::WrongTurn)
    );
    assert!(s.inform_blocker(A, 1, 8, 8, c, "s".to_string()).is_ok());
}

#[test]
fn unknown_variant_applies_no_effect() {
    let mut s = started();
    let c = commitment(7, 8, 8, "s");
    s.place_blocker(A, c.clone()).unwrap();
    s.take_move_chance(B, 8, 8).unwrap();
    assert_eq!(
        s.inform_blocker(A, 7, 8, 8, c, "s".to_string()),
        Ok(vec![Event::BlockerRevealed { x: 8, y: 8, variant: 7 }])
    );
    let (_, p2) = s.get_players_state();
    assert_eq!(p2.health, 15);
    assert_eq!(p2.locked_count, 0);
}
