use vstd::prelude::*;
use vstd::utf8::encode_utf8;
use crate::types::{Blocker, Config, Event, GameError, Player, Position, VariantCfg};
use crate::hashing::commitment_bytes;

verus! {

/// Health at or below this value is critical: damage escalates the applied
/// lock, and the health resets to the configured start when a lock expires.
pub const CRITICAL_HEALTH: u32 = 1;

/// Mathematical image of one seat.
#[verifier::ext_equal]
pub struct PlayerV {
    pub id: Seq<u8>,
    pub is_seated: bool,
    pub is_ready: bool,
    pub x: i64,
    pub y: i64,
    pub health: u32,
    pub remaining_blocker: u32,
    pub locked_count: u32,
    pub usage_counts: Seq<u32>,
}

/// Mathematical image of the ruleset.
#[verifier::ext_equal]
pub struct ConfigV {
    pub board: i64,
    pub health: u32,
    pub budget: u32,
    pub step: i64,
    pub join_self_confirms: bool,
    pub variants: Seq<VariantCfg>,
}

/// Mathematical image of the whole match record. The ledger is a sequence of
/// commitment/blocker pairs with pairwise distinct commitments.
#[verifier::ext_equal]
pub struct MatchV {
    pub p1: PlayerV,
    pub p2: PlayerV,
    pub blockers: Seq<(Seq<char>, Blocker)>,
    pub round: u64,
    pub cfg: ConfigV,
}

impl View for Player {
    type V = PlayerV;

    open spec fn view(&self) -> PlayerV {
        PlayerV {
            id: self.id@,
            is_seated: self.is_seated,
            is_ready: self.is_ready,
            x: self.position.x,
            y: self.position.y,
            health: self.health,
            remaining_blocker: self.remaining_blocker,
            locked_count: self.locked_count,
            usage_counts: self.usage_counts@,
        }
    }
}

impl View for Config {
    type V = ConfigV;

    open spec fn view(&self) -> ConfigV {
        ConfigV {
            board: self.board,
            health: self.health,
            budget: self.budget,
            step: self.step,
            join_self_confirms: self.join_self_confirms,
            variants: self.variants@,
        }
    }
}

impl ConfigV {
    /// A usable ruleset: a non-degenerate board, non-negative step size, and
    /// for every variant an escalated lock strictly above the plain one.
    pub open spec fn wf(self) -> bool {
        &&& 0 <= self.board
        &&& 0 <= self.step
        &&& forall|i: int|
            0 <= i < self.variants.len() ==> (#[trigger] self.variants[i]).critical_lock
                > self.variants[i].lock
    }
}

impl PlayerV {
    /// The seat's position lies on the board and its usage counters line up
    /// with the configured variant table.
    pub open spec fn wf(self, cfg: ConfigV) -> bool {
        &&& self.usage_counts.len() == cfg.variants.len()
        &&& 0 <= self.x <= cfg.board
        &&& 0 <= self.y <= cfg.board
    }
}

/// `true` when no two ledger entries share a commitment.
pub open spec fn keys_unique(bs: Seq<(Seq<char>, Blocker)>) -> bool {
    forall|i: int, j: int| 0 <= i < j < bs.len() ==> (#[trigger] bs[i]).0 != (#[trigger] bs[j]).0
}

/// `true` when some ledger entry carries this commitment.
pub open spec fn has_key(bs: Seq<(Seq<char>, Blocker)>, key: Seq<char>) -> bool {
    exists|i: int| 0 <= i < bs.len() && (#[trigger] bs[i]).0 == key
}

/// The index of the entry carrying this commitment (unique under
/// `keys_unique`).
pub open spec fn key_index(bs: Seq<(Seq<char>, Blocker)>, key: Seq<char>) -> int {
    choose|i: int| 0 <= i < bs.len() && (#[trigger] bs[i]).0 == key
}

/// The seat that owns the given round: even rounds belong to seat 0
/// (player 1), odd rounds to seat 1 (player 2).
pub open spec fn active_seat(round: u64) -> u8 {
    if round % 2 == 0 {
        0u8
    } else {
        1u8
    }
}

impl MatchV {
    pub open spec fn seat(self, i: u8) -> PlayerV {
        if i == 0 {
            self.p1
        } else {
            self.p2
        }
    }

    pub open spec fn with_seat(self, i: u8, p: PlayerV) -> MatchV {
        if i == 0 {
            MatchV { p1: p, ..self }
        } else {
            MatchV { p2: p, ..self }
        }
    }

    pub open spec fn active(self) -> u8 {
        active_seat(self.round)
    }

    pub open spec fn both_ready(self) -> bool {
        self.p1.is_ready && self.p2.is_ready
    }

    pub open spec fn advanced(self) -> MatchV {
        MatchV { round: (self.round + 1) as u64, ..self }
    }

    /// The record's invariant: a usable ruleset, two well-formed seats, and a
    /// ledger without duplicate commitments.
    pub open spec fn wf(self) -> bool {
        &&& self.cfg.wf()
        &&& self.p1.wf(self.cfg)
        &&& self.p2.wf(self.cfg)
        &&& keys_unique(self.blockers)
    }
}

/// Per-axis distance, as an unbounded integer.
pub open spec fn dist(a: i64, b: i64) -> int {
    if a >= b {
        a - b
    } else {
        b - a
    }
}

/// The state a match is created in: both seats empty at the origin, ledger
/// empty, round zero.
pub open spec fn empty_player(cfg: ConfigV) -> PlayerV {
    PlayerV {
        id: Seq::new(32, |i: int| 0u8),
        is_seated: false,
        is_ready: false,
        x: 0,
        y: 0,
        health: 0,
        remaining_blocker: 0,
        locked_count: 0,
        usage_counts: Seq::new(cfg.variants.len(), |i: int| 0u32),
    }
}

pub open spec fn initial_state(cfg: ConfigV) -> MatchV {
    MatchV {
        p1: empty_player(cfg),
        p2: empty_player(cfg),
        blockers: Seq::empty(),
        round: 0,
        cfg,
    }
}

/// The ruleset observed in deployment: a 12x12 grid (coordinates `0 ..= 11`),
/// 15 health, 36 blockers, step size 3, self-confirming joins, and three
/// blocker variants.
pub open spec fn standard_config() -> ConfigV {
    ConfigV {
        board: 11,
        health: 15,
        budget: 36,
        step: 3,
        join_self_confirms: true,
        variants: seq![
            VariantCfg { damage: 0, lock: 1, critical_lock: 2, cap: 15 },
            VariantCfg { damage: 5, lock: 0, critical_lock: 3, cap: 11 },
            VariantCfg { damage: 5, lock: 2, critical_lock: 4, cap: 9 },
        ],
    }
}

/// Relates an operation's executable outcome to the modeled one: same error,
/// or a success carrying exactly the modeled notifications.
pub open spec fn out_matches(r: Result<Vec<Event>, GameError>, s: Result<
    Seq<Event>,
    GameError,
>) -> bool {
    match (r, s) {
        (Ok(ev), Ok(es)) => ev@ == es,
        (Err(e), Err(f)) => e == f,
        _ => false,
    }
}

/// Appending an entry under a commitment that is not in the ledger keeps the
/// commitments pairwise distinct.
pub proof fn lemma_push_fresh_key(bs: Seq<(Seq<char>, Blocker)>, key: Seq<char>, b: Blocker)
    requires
        keys_unique(bs),
        !has_key(bs, key),
    ensures
        keys_unique(bs.push((key, b))),
{
    let bs2 = bs.push((key, b));
    assert forall|i: int, j: int| 0 <= i < j < bs2.len() implies (#[trigger] bs2[i]).0 != (
    #[trigger] bs2[j]).0 by {
        if j < bs.len() {
            assert(bs2[i] == bs[i] && bs2[j] == bs[j]);
        } else {
            assert(bs2[j].0 == key);
            assert(bs2[i] == bs[i]);
        }
    }
}

/// Replacing an entry's blocker while keeping its commitment keeps the
/// commitments pairwise distinct.
pub proof fn lemma_update_same_key(bs: Seq<(Seq<char>, Blocker)>, i: int, b: Blocker)
    requires
        keys_unique(bs),
        0 <= i < bs.len(),
    ensures
        keys_unique(bs.update(i, (bs[i].0, b))),
{
    let bs2 = bs.update(i, (bs[i].0, b));
    assert forall|k: int, j: int| 0 <= k < j < bs2.len() implies (#[trigger] bs2[k]).0 != (
    #[trigger] bs2[j]).0 by {
        assert(bs2[k].0 == bs[k].0 && bs2[j].0 == bs[j].0);
    }
}

/// Under pairwise distinct commitments, `key_index` is the one index that
/// carries the key.
pub proof fn lemma_key_index(bs: Seq<(Seq<char>, Blocker)>, key: Seq<char>)
    requires
        keys_unique(bs),
        has_key(bs, key),
    ensures
        0 <= key_index(bs, key) < bs.len(),
        bs[key_index(bs, key)].0 == key,
        forall|j: int| 0 <= j < bs.len() && (#[trigger] bs[j]).0 == key ==> j == key_index(
            bs,
            key,
        ),
{
    let i = key_index(bs, key);
    assert(0 <= i < bs.len() && bs[i].0 == key);
    assert forall|j: int| 0 <= j < bs.len() && (#[trigger] bs[j]).0 == key implies j == i by {
        if j < i {
            assert(bs[j].0 != bs[i].0);
        } else if i < j {
            assert(bs[i].0 != bs[j].0);
        }
    }
}

/// `start_room`: binds the caller to seat 0 and readies it.
pub open spec fn spec_start(s: MatchV, caller: Seq<u8>) -> (MatchV, Result<
    Seq<Event>,
    GameError,
>) {
    if s.p1.is_seated {
        (s, Err(GameError::AlreadyStarted))
    } else {
        let p1 = PlayerV {
            id: caller,
            is_seated: true,
            is_ready: true,
            health: s.cfg.health,
            remaining_blocker: s.cfg.budget,
            ..s.p1
        };
        (MatchV { p1, ..s }, Ok(seq![Event::PlayerReady { player_id: 0u8 }]))
    }
}

/// `join_room`: binds the caller to seat 1 at the far corner; the seat is
/// readied at once only under a self-confirming ruleset.
pub open spec fn spec_join(s: MatchV, caller: Seq<u8>) -> (MatchV, Result<
    Seq<Event>,
    GameError,
>) {
    if !s.p1.is_ready {
        (s, Err(GameError::NotReady))
    } else if s.p2.is_seated {
        (s, Err(GameError::SeatTaken))
    } else {
        let p2 = PlayerV {
            id: caller,
            is_seated: true,
            is_ready: s.cfg.join_self_confirms,
            health: s.cfg.health,
            remaining_blocker: s.cfg.budget,
            x: s.cfg.board,
            y: s.cfg.board,
            ..s.p2
        };
        let ev = if s.cfg.join_self_confirms {
            seq![Event::PlayerReady { player_id: 1u8 }]
        } else {
            Seq::<Event>::empty()
        };
        (MatchV { p2, ..s }, Ok(ev))
    }
}

/// `confirm_ready`: the separate authorization step of a ruleset whose joins
/// do not self-confirm.
pub open spec fn spec_confirm(s: MatchV) -> (MatchV, Result<Seq<Event>, GameError>) {
    if !s.p2.is_seated {
        (s, Err(GameError::NotReady))
    } else if s.p2.is_ready {
        (s, Err(GameError::AlreadyStarted))
    } else {
        (
            MatchV { p2: PlayerV { is_ready: true, ..s.p2 }, ..s },
            Ok(seq![Event::PlayerReady { player_id: 1u8 }]),
        )
    }
}

/// `take_move_chance`: a locked seat consumes the turn in place; otherwise the
/// move is validated against board bounds and step size, applied, and checked
/// for a win on the opposite corner.
///
/// Bounds are enforced for real: coordinates below zero or above the board
/// are rejected with `InvalidPosition`. (An earlier formulation of this rule
/// conjoined the two comparisons and so rejected nothing; here the corrected
/// disjunction is chosen, which is what keeps both seats on the board.)
pub open spec fn spec_take_move(s: MatchV, caller: Seq<u8>, x: i64, y: i64) -> (MatchV, Result<
    Seq<Event>,
    GameError,
>) {
    let a = s.active();
    let mover = s.seat(a);
    if !s.both_ready() {
        (s, Err(GameError::NotReady))
    } else if mover.id != caller {
        (s, Err(GameError::WrongTurn))
    } else if mover.locked_count > 0 {
        let nl = (mover.locked_count - 1) as u32;
        let nh = if nl == 0 && mover.health <= CRITICAL_HEALTH {
            s.cfg.health
        } else {
            mover.health
        };
        let m2 = PlayerV { locked_count: nl, health: nh, ..mover };
        let ev = seq![Event::PlayerMoved { player_id: a, x: mover.x, y: mover.y }] + if nl == 0 {
            seq![Event::PlayerUnlocked { player_id: a }]
        } else {
            Seq::<Event>::empty()
        };
        (s.with_seat(a, m2).advanced(), Ok(ev))
    } else if !(0 <= x <= s.cfg.board) || !(0 <= y <= s.cfg.board) {
        (s, Err(GameError::InvalidPosition))
    } else if dist(mover.x, x) > s.cfg.step || dist(mover.y, y) > s.cfg.step {
        (s, Err(GameError::InvalidPosition))
    } else {
        let m2 = PlayerV { x, y, ..mover };
        let won = if a == 0 {
            x == s.cfg.board && y == s.cfg.board
        } else {
            x == 0 && y == 0
        };
        let ev = seq![Event::PlayerMoved { player_id: a, x, y }] + if won {
            seq![Event::PlayerWon { player_id: a }]
        } else {
            Seq::<Event>::empty()
        };
        (s.with_seat(a, m2).advanced(), Ok(ev))
    }
}

/// `place_blocker`: the active seat spends one budget unit to record a fully
/// masked blocker under a fresh commitment.
pub open spec fn spec_place(s: MatchV, caller: Seq<u8>, key: Seq<char>) -> (MatchV, Result<
    Seq<Event>,
    GameError,
>) {
    let a = s.active();
    let pl = s.seat(a);
    if pl.id != caller {
        (s, Err(GameError::WrongTurn))
    } else if pl.remaining_blocker == 0 {
        (s, Err(GameError::NoBudget))
    } else if has_key(s.blockers, key) {
        (s, Err(GameError::DuplicateCommitment))
    } else {
        let pl2 = PlayerV { remaining_blocker: (pl.remaining_blocker - 1) as u32, ..pl };
        let b = Blocker {
            is_active: true,
            position: Position { x: 0, y: 0 },
            player: a,
            variant: 0,
        };
        let s2 = MatchV { blockers: s.blockers.push((key, b)), ..s.with_seat(a, pl2) };
        (s2.advanced(), Ok(seq![Event::BlockerPlaced { player_id: a }]))
    }
}

/// The effect of one successful reveal on the revealing seat, the target seat,
/// and the notification flag: `(revealer', target', lock applied)`.
pub open spec fn apply_variant(cfg: ConfigV, variant: u8, rev: PlayerV, tgt: PlayerV) -> (
    PlayerV,
    PlayerV,
    bool,
) {
    if (variant as int) < cfg.variants.len() {
        let vc = cfg.variants[variant as int];
        let rev2 = PlayerV {
            usage_counts: rev.usage_counts.update(
                variant as int,
                (rev.usage_counts[variant as int] + 1) as u32,
            ),
            ..rev
        };
        let base_lock = if vc.lock > 0 {
            vc.lock
        } else {
            tgt.locked_count
        };
        let nh = if tgt.health >= vc.damage {
            (tgt.health - vc.damage) as u32
        } else {
            0u32
        };
        let nl = if nh <= CRITICAL_HEALTH {
            vc.critical_lock
        } else {
            base_lock
        };
        let tgt2 = PlayerV { locked_count: nl, health: nh, ..tgt };
        (rev2, tgt2, vc.lock > 0 || nh <= CRITICAL_HEALTH)
    } else {
        // A variant outside the configured table applies no effect.
        (rev, tgt, false)
    }
}

/// `inform_blocker`: checks the commit-reveal proof, resolves the blocker, and
/// applies the variant's effects to the seat opposite the revealing one.
pub open spec fn spec_reveal(
    s: MatchV,
    caller: Seq<u8>,
    variant: u8,
    x: i64,
    y: i64,
    key: Seq<char>,
    secret: Seq<char>,
) -> (MatchV, Result<Seq<Event>, GameError>) {
    let a = s.active();
    let t = if a == 0 {
        1u8
    } else {
        0u8
    };
    let rev = s.seat(a);
    let tgt = s.seat(t);
    if rev.id != caller {
        (s, Err(GameError::WrongTurn))
    } else if commitment_bytes(variant, x, y, secret) != encode_utf8(key) {
        (s, Err(GameError::ProofMismatch))
    } else if !has_key(s.blockers, key) {
        (s, Err(GameError::UnknownOrResolvedTrap))
    } else {
        let i = key_index(s.blockers, key);
        let b = s.blockers[i].1;
        if !b.is_active {
            (s, Err(GameError::UnknownOrResolvedTrap))
        } else if tgt.x != x || tgt.y != y {
            (s, Err(GameError::TargetMismatch))
        } else if (variant as int) < s.cfg.variants.len() && rev.usage_counts[variant as int]
            >= s.cfg.variants[variant as int].cap {
            (s, Err(GameError::VariantCapReached))
        } else {
            let eff = apply_variant(s.cfg, variant, rev, tgt);
            let b2 = Blocker {
                is_active: false,
                variant,
                position: Position { x, y },
                player: b.player,
            };
            let s2 = MatchV {
                blockers: s.blockers.update(i, (key, b2)),
                ..s.with_seat(a, eff.0).with_seat(t, eff.1)
            };
            let ev = (if eff.2 {
                seq![Event::PlayerLocked { player_id: t }]
            } else {
                Seq::<Event>::empty()
            }) + seq![Event::BlockerRevealed { x, y, variant }];
            (s2, Ok(ev))
        }
    }
}

} // verus!
