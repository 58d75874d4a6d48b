use vstd::prelude::*;

verus! {

/// One labeled failure per rejected operation. Every operation either succeeds
/// with a list of notifications or returns exactly one of these, leaving the
/// match record untouched.
#[derive(Clone, Copy, Debug, PartialEq, Eq, Structural)]
pub enum GameError {
    /// `start_room` was called although seat 1 is already bound.
    AlreadyStarted,
    /// The operation needs a seat that is not ready (or not yet filled).
    NotReady,
    /// `join_room` was called although seat 2 is already filled.
    SeatTaken,
    /// The caller does not own the seat whose turn it is.
    WrongTurn,
    /// The active seat has no blocker placements left.
    NoBudget,
    /// The requested coordinates are out of the board or exceed the step size.
    InvalidPosition,
    /// A blocker with this commitment already exists.
    DuplicateCommitment,
    /// No active blocker is stored under this commitment.
    UnknownOrResolvedTrap,
    /// The recomputed digest does not equal the supplied commitment.
    ProofMismatch,
    /// The revealed coordinates are not the opponent's current position.
    TargetMismatch,
    /// The revealed variant has reached its per-side usage cap.
    VariantCapReached,
}

/// A notification describing one observable state change. Each operation
/// returns the ordered list of notifications it produced; delivery to
/// observers is the host's concern.
#[derive(Clone, Copy, Debug, PartialEq, Eq, Structural)]
pub enum Event {
    PlayerReady { player_id: u8 },
    PlayerMoved { player_id: u8, x: i64, y: i64 },
    BlockerPlaced { player_id: u8 },
    PlayerWon { player_id: u8 },
    PlayerLocked { player_id: u8 },
    PlayerUnlocked { player_id: u8 },
    BlockerRevealed { x: i64, y: i64, variant: u8 },
}

/// A point of the board; coordinates of live positions stay in `0 ..= board`.
#[derive(Clone, Copy, Debug, PartialEq, Eq, Structural)]
pub struct Position {
    pub x: i64,
    pub y: i64,
}

/// One commit-reveal record. It is stored keyed by its commitment string;
/// variant and position stay masked (zero) until the reveal succeeds.
#[derive(Clone, Copy, Debug, PartialEq, Eq, Structural)]
pub struct Blocker {
    pub is_active: bool,
    pub position: Position,
    pub player: u8,
    pub variant: u8,
}

/// The configured effect of one blocker variant.
/// `critical_lock` is the escalated lock duration applied when the victim's
/// health ends at or below the critical threshold; it is always strictly
/// greater than `lock`.
#[derive(Clone, Copy, Debug, PartialEq, Eq, Structural)]
pub struct VariantCfg {
    /// Health subtracted from the victim (saturating at zero).
    pub damage: u32,
    /// Lock duration applied to the victim; zero leaves the current lock alone.
    pub lock: u32,
    /// Lock duration applied instead when the victim ends critical.
    pub critical_lock: u32,
    /// How many reveals of this variant one side may perform.
    pub cap: u32,
}

/// One seat of the duel.
pub struct Player {
    /// Opaque caller identifier, bound once when the seat is taken.
    pub id: [u8; 32],
    /// The seat has been taken (identity bound).
    pub is_seated: bool,
    /// The seat may act; set at seating or by the explicit confirmation step.
    pub is_ready: bool,
    pub position: Position,
    pub health: u32,
    /// Placements left; placing fails once this reaches zero.
    pub remaining_blocker: u32,
    /// While positive, this seat's turns are consumed without movement.
    pub locked_count: u32,
    /// Per-variant reveal counters, indexed like `Config::variants`.
    pub usage_counts: Vec<u32>,
}

/// The fixed ruleset of one deployed match instance.
pub struct Config {
    /// Grid coordinates range over `0 ..= board`.
    pub board: i64,
    /// Starting health, also restored when a lock expires on a critical seat.
    pub health: u32,
    /// Starting blocker budget per seat.
    pub budget: u32,
    /// Largest accepted per-axis movement delta.
    pub step: i64,
    /// Whether joining marks seat 2 ready at once; otherwise a separate
    /// confirmation step is required before seat 2 may act.
    pub join_self_confirms: bool,
    /// Effect table, indexed by blocker variant.
    pub variants: Vec<VariantCfg>,
}

} // verus!
