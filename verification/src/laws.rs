use vstd::prelude::*;
use vstd::utf8::encode_utf8;
use crate::hashing::commitment_bytes;
use crate::model::{
    active_seat, dist, has_key, key_index, lemma_key_index, lemma_update_same_key, spec_confirm,
    spec_join, spec_place, spec_reveal, spec_start, spec_take_move, MatchV, CRITICAL_HEALTH,
};
use crate::types::{Event, GameError};

verus! {

/// One call against the match record, with its arguments; used to state laws
/// over whole call sequences.
pub enum Op {
    Start { caller: Seq<u8> },
    Join { caller: Seq<u8> },
    Confirm,
    Move { caller: Seq<u8>, x: i64, y: i64 },
    Place { caller: Seq<u8>, key: Seq<char> },
    Reveal { caller: Seq<u8>, variant: u8, x: i64, y: i64, key: Seq<char>, secret: Seq<char> },
}

/// The record and outcome one call leaves behind.
pub open spec fn step(s: MatchV, op: Op) -> (MatchV, Result<Seq<Event>, GameError>) {
    match op {
        Op::Start { caller } => spec_start(s, caller),
        Op::Join { caller } => spec_join(s, caller),
        Op::Confirm => spec_confirm(s),
        Op::Move { caller, x, y } => spec_take_move(s, caller, x, y),
        Op::Place { caller, key } => spec_place(s, caller, key),
        Op::Reveal { caller, variant, x, y, key, secret } => spec_reveal(
            s,
            caller,
            variant,
            x,
            y,
            key,
            secret,
        ),
    }
}

/// The record left behind by a whole call sequence.
pub open spec fn run(s: MatchV, ops: Seq<Op>) -> MatchV
    decreases ops.len(),
{
    if ops.len() == 0 {
        s
    } else {
        run(step(s, ops[0]).0, ops.drop_first())
    }
}

/// Law: every call preserves the record's invariant, and hence so does every
/// call sequence.
pub proof fn lemma_step_preserves_wf(s: MatchV, op: Op)
    requires
        s.wf(),
    ensures
        step(s, op).0.wf(),
{
    match op {
        Op::Place { caller, key } => {
            let a = s.active();
            let pl = s.seat(a);
            if pl.id == caller && pl.remaining_blocker != 0 && !has_key(s.blockers, key) {
                let b = step(s, op).0.blockers.last().1;
                crate::model::lemma_push_fresh_key(s.blockers, key, b);
            }
        },
        Op::Reveal { caller, variant, x, y, key, secret } => {
            if spec_reveal(s, caller, variant, x, y, key, secret).0 != s {
                if has_key(s.blockers, key) {
                    lemma_key_index(s.blockers, key);
                    let i = key_index(s.blockers, key);
                    let nb = spec_reveal(s, caller, variant, x, y, key, secret).0.blockers[i].1;
                    lemma_update_same_key(s.blockers, i, nb);
                }
            }
        },
        _ => {},
    }
}

pub proof fn lemma_run_preserves_wf(s: MatchV, ops: Seq<Op>)
    requires
        s.wf(),
    ensures
        run(s, ops).wf(),
    decreases ops.len(),
{
    if ops.len() > 0 {
        lemma_step_preserves_wf(s, ops[0]);
        lemma_run_preserves_wf(step(s, ops[0]).0, ops.drop_first());
    }
}

/// Law: there are no partial writes. A call that fails — whichever call, and
/// with whichever error — leaves the match record exactly as it was.
pub proof fn lemma_failure_leaves_record(s: MatchV, op: Op)
    requires
        step(s, op).1 is Err,
    ensures
        step(s, op).0 == s,
{
}

/// Law: every successful move or placement was made by the seat that owned
/// the round, and handed the following round to the other seat — so over any
/// call sequence, successful turns strictly alternate seat ownership.
pub proof fn lemma_turns_strictly_alternate(s: MatchV, op: Op)
    requires
        s.round < u64::MAX,
        step(s, op).1 is Ok,
    ensures
        op matches Op::Move { caller, .. } ==> caller == s.seat(s.active()).id && active_seat(
            step(s, op).0.round,
        ) != s.active(),
        op matches Op::Place { caller, .. } ==> caller == s.seat(s.active()).id && active_seat(
            step(s, op).0.round,
        ) != s.active(),
{
    match op {
        Op::Move { caller, x, y } => {
            let s2 = spec_take_move(s, caller, x, y).0;
            assert(s2.round == s.round + 1);
            assert(active_seat(s2.round) != active_seat(s.round));
        },
        Op::Place { caller, key } => {
            let s2 = spec_place(s, caller, key).0;
            assert(s2.round == s.round + 1);
            assert(active_seat(s2.round) != active_seat(s.round));
        },
        _ => {},
    }
}

/// `true` for the calls that fill or ready a seat and so reset budgets.
pub open spec fn is_lifecycle(op: Op) -> bool {
    match op {
        Op::Start { .. } => true,
        Op::Join { .. } => true,
        Op::Confirm => true,
        _ => false,
    }
}

/// How many placements in the sequence succeed for the given seat.
pub open spec fn places_by(s: MatchV, ops: Seq<Op>, side: u8) -> nat
    decreases ops.len(),
{
    if ops.len() == 0 {
        0
    } else {
        let hit: nat = if ops[0] is Place && step(s, ops[0]).1 is Ok && s.active() == side {
            1
        } else {
            0
        };
        hit + places_by(step(s, ops[0]).0, ops.drop_first(), side)
    }
}

/// Law: placement is budget-bounded over whole call sequences. Along any run
/// of in-game calls, a seat's remaining budget drops by exactly its number of
/// successful placements, and that number can never exceed the budget the
/// seat had at the start of the run — so a seat with budget `K` gets exactly
/// `K` successful placements before every further one fails.
pub proof fn lemma_budget_accounting(s: MatchV, ops: Seq<Op>, side: u8)
    requires
        side == 0 || side == 1,
        forall|i: int| 0 <= i < ops.len() ==> !is_lifecycle(#[trigger] ops[i]),
    ensures
        places_by(s, ops, side) <= s.seat(side).remaining_blocker,
        run(s, ops).seat(side).remaining_blocker == s.seat(side).remaining_blocker - places_by(
            s,
            ops,
            side,
        ),
    decreases ops.len(),
{
    if ops.len() > 0 {
        let op0 = ops[0];
        assert(!is_lifecycle(op0));
        let s2 = step(s, op0).0;
        let hit: nat = if op0 is Place && step(s, op0).1 is Ok && s.active() == side {
            1
        } else {
            0
        };
        assert(s2.seat(side).remaining_blocker == s.seat(side).remaining_blocker - hit) by {
            match op0 {
                Op::Move { caller, x, y } => {},
                Op::Place { caller, key } => {},
                Op::Reveal { caller, variant, x, y, key, secret } => {},
                _ => {},
            }
        }
        assert forall|i: int| 0 <= i < ops.drop_first().len() implies !is_lifecycle(
            #[trigger] ops.drop_first()[i],
        ) by {
            assert(ops.drop_first()[i] == ops[i + 1]);
        }
        lemma_budget_accounting(s2, ops.drop_first(), side);
    }
}

/// Law: advancing the turn counter hands the turn to the other seat, so
/// consecutive turns strictly alternate seat ownership.
pub proof fn lemma_turn_alternates(round: u64)
    requires
        round < u64::MAX,
    ensures
        active_seat((round + 1) as u64) != active_seat(round),
{
}

/// Law: when both seats are ready, a move call from any identity other than
/// the active seat's fails with `WrongTurn` and changes nothing; conversely a
/// successful move call came from the active seat and advanced the turn
/// counter by exactly one.
pub proof fn lemma_turn_ownership(s: MatchV, caller: Seq<u8>, x: i64, y: i64)
    ensures
        s.both_ready() && s.seat(s.active()).id != caller ==> spec_take_move(s, caller, x, y)
            == (s, Err::<Seq<Event>, GameError>(GameError::WrongTurn)),
        spec_take_move(s, caller, x, y).1 is Ok ==> s.seat(s.active()).id == caller
            && spec_take_move(s, caller, x, y).0.round == ((s.round + 1) as u64),
{
}

/// Law: an accepted move stays within the configured per-axis step size
/// relative to the mover's pre-move position and lands exactly on the
/// requested square; a request beyond the step size (or off the board) is
/// rejected with `InvalidPosition` and the record is unchanged.
pub proof fn lemma_step_bounded(s: MatchV, caller: Seq<u8>, x: i64, y: i64)
    ensures
        ({
            let (s2, r) = spec_take_move(s, caller, x, y);
            let a = s.active();
            let mover = s.seat(a);
            &&& (r is Ok && mover.locked_count == 0 ==> {
                &&& dist(mover.x, x) <= s.cfg.step
                &&& dist(mover.y, y) <= s.cfg.step
                &&& 0 <= x <= s.cfg.board
                &&& 0 <= y <= s.cfg.board
                &&& s2.seat(a).x == x
                &&& s2.seat(a).y == y
            })
            &&& (s.both_ready() && mover.id == caller && mover.locked_count == 0 && (dist(
                mover.x,
                x,
            ) > s.cfg.step || dist(mover.y, y) > s.cfg.step) ==> r == Err::<
                Seq<Event>,
                GameError,
            >(GameError::InvalidPosition) && s2 == s)
        }),
{
}

/// Law: placements are budget-bounded. Each successful placement decrements
/// the active seat's remaining budget by exactly one and advances the turn;
/// once the budget is zero every further placement by that seat fails with
/// `NoBudget` and changes nothing. A side therefore gets exactly its
/// configured budget of successful placements.
pub proof fn lemma_budget(s: MatchV, caller: Seq<u8>, key: Seq<char>)
    ensures
        ({
            let (s2, r) = spec_place(s, caller, key);
            let a = s.active();
            &&& (r is Ok ==> {
                &&& s2.seat(a).remaining_blocker == s.seat(a).remaining_blocker - 1
                &&& s2.seat(if a == 0 { 1u8 } else { 0u8 }) == s.seat(if a == 0 { 1u8 } else { 0u8 })
                &&& s2.round == ((s.round + 1) as u64)
            })
            &&& (s.seat(a).id == caller && s.seat(a).remaining_blocker == 0 ==> r == Err::<
                Seq<Event>,
                GameError,
            >(GameError::NoBudget) && s2 == s)
        }),
{
}

/// Law: a move call succeeds exactly when both seats are ready, the caller
/// owns the turn, and — unless the seat is locked, in which case the turn is
/// consumed in place — the requested square is on the board within the step
/// size.
pub proof fn lemma_move_succeeds_iff(s: MatchV, caller: Seq<u8>, x: i64, y: i64)
    ensures
        spec_take_move(s, caller, x, y).1 is Ok <==> {
            &&& s.both_ready()
            &&& s.seat(s.active()).id == caller
            &&& (s.seat(s.active()).locked_count > 0 || (0 <= x <= s.cfg.board && 0 <= y
                <= s.cfg.board && dist(s.seat(s.active()).x, x) <= s.cfg.step && dist(
                s.seat(s.active()).y,
                y,
            ) <= s.cfg.step))
        },
{
}

/// Law: a placement succeeds exactly when the caller owns the turn, budget
/// remains, and the commitment is fresh.
pub proof fn lemma_place_succeeds_iff(s: MatchV, caller: Seq<u8>, key: Seq<char>)
    ensures
        spec_place(s, caller, key).1 is Ok <==> {
            &&& s.seat(s.active()).id == caller
            &&& s.seat(s.active()).remaining_blocker > 0
            &&& !has_key(s.blockers, key)
        },
{
}

/// Law: a reveal succeeds exactly when the caller owns the turn, the supplied
/// preimage hashes to the supplied commitment, an active blocker is stored
/// under that commitment, the opposing seat stands exactly on the revealed
/// coordinates, and the variant's usage cap is not yet reached; and a
/// commitment that the preimage does not hash to is rejected as
/// `ProofMismatch` whatever the ledger holds.
pub proof fn lemma_reveal_succeeds_iff(
    s: MatchV,
    caller: Seq<u8>,
    variant: u8,
    x: i64,
    y: i64,
    key: Seq<char>,
    secret: Seq<char>,
)
    requires
        s.wf(),
    ensures
        ({
            let r = spec_reveal(s, caller, variant, x, y, key, secret).1;
            let a = s.active();
            let t = if a == 0 { 1u8 } else { 0u8 };
            r is Ok <==> {
                &&& s.seat(a).id == caller
                &&& commitment_bytes(variant, x, y, secret) == encode_utf8(key)
                &&& has_key(s.blockers, key)
                &&& s.blockers[key_index(s.blockers, key)].1.is_active
                &&& s.seat(t).x == x && s.seat(t).y == y
                &&& !((variant as int) < s.cfg.variants.len() && s.seat(a).usage_counts[variant as int] >= s.cfg.variants[variant as int].cap)
            }
        }),
        s.seat(s.active()).id == caller && commitment_bytes(variant, x, y, secret)
            != encode_utf8(key) ==> spec_reveal(s, caller, variant, x, y, key, secret) == (
            s,
            Err::<Seq<Event>, GameError>(GameError::ProofMismatch),
        ),
{
}

/// Law: a revealed blocker is permanently resolved. After a successful
/// reveal, repeating the very same reveal against the resulting record fails
/// with `UnknownOrResolvedTrap` and changes nothing.
pub proof fn lemma_reveal_only_once(
    s: MatchV,
    caller: Seq<u8>,
    variant: u8,
    x: i64,
    y: i64,
    key: Seq<char>,
    secret: Seq<char>,
)
    requires
        s.wf(),
        spec_reveal(s, caller, variant, x, y, key, secret).1 is Ok,
    ensures
        ({
            let s2 = spec_reveal(s, caller, variant, x, y, key, secret).0;
            spec_reveal(s2, caller, variant, x, y, key, secret) == (
                s2,
                Err::<Seq<Event>, GameError>(GameError::UnknownOrResolvedTrap),
            )
        }),
{
    let s2 = spec_reveal(s, caller, variant, x, y, key, secret).0;
    lemma_key_index(s.blockers, key);
    let i = key_index(s.blockers, key);
    let nb = s2.blockers[i].1;
    lemma_update_same_key(s.blockers, i, nb);
    assert(s2.blockers =~= s.blockers.update(i, (key, nb)));
    assert(s2.blockers[i].0 == key);
    assert(has_key(s2.blockers, key));
    lemma_key_index(s2.blockers, key);
    assert(key_index(s2.blockers, key) == i);
    assert(!s2.blockers[i].1.is_active);
}

/// Law: a locked seat's own turn consumes one unit of the lock and moves
/// nothing; the turn that exhausts the lock additionally fires
/// `PlayerUnlocked` and, if that seat's health was at or below the critical
/// threshold, restores it to the configured start.
pub proof fn lemma_locked_turn(s: MatchV, caller: Seq<u8>, x: i64, y: i64)
    requires
        s.both_ready(),
        s.seat(s.active()).id == caller,
        s.seat(s.active()).locked_count > 0,
    ensures
        ({
            let (s2, r) = spec_take_move(s, caller, x, y);
            let a = s.active();
            let mover = s.seat(a);
            &&& r is Ok
            &&& s2.seat(a).locked_count == mover.locked_count - 1
            &&& s2.seat(a).x == mover.x && s2.seat(a).y == mover.y
            &&& s2.round == ((s.round + 1) as u64)
            &&& (mover.locked_count == 1 ==> {
                &&& r.unwrap().contains(Event::PlayerUnlocked { player_id: a })
                &&& (mover.health <= CRITICAL_HEALTH ==> s2.seat(a).health == s.cfg.health)
                &&& (mover.health > CRITICAL_HEALTH ==> s2.seat(a).health == mover.health)
            })
            &&& (mover.locked_count > 1 ==> r.unwrap() == seq![
                Event::PlayerMoved { player_id: a, x: mover.x, y: mover.y },
            ] && s2.seat(a).health == mover.health)
        }),
{
    let (s2, r) = spec_take_move(s, caller, x, y);
    let a = s.active();
    let mover = s.seat(a);
    if mover.locked_count == 1 {
        assert(r.unwrap()[1] == Event::PlayerUnlocked { player_id: a });
    } else {
        assert(r.unwrap() =~= seq![Event::PlayerMoved { player_id: a, x: mover.x, y: mover.y }]);
    }
}

/// Law: a successful move fires `PlayerWon` exactly when it lands on the
/// mover's configured target corner — the far corner for seat 0, the origin
/// for seat 1 — and for no other coordinate.
pub proof fn lemma_win_detection(s: MatchV, caller: Seq<u8>, x: i64, y: i64)
    requires
        s.seat(s.active()).locked_count == 0,
    ensures
        ({
            let (s2, r) = spec_take_move(s, caller, x, y);
            let a = s.active();
            r is Ok ==> (r.unwrap().contains(Event::PlayerWon { player_id: a }) <==> ((a == 0 && x
                == s.cfg.board && y == s.cfg.board) || (a == 1 && x == 0 && y == 0)))
        }),
{
    let (s2, r) = spec_take_move(s, caller, x, y);
    let a = s.active();
    if r is Ok {
        let won = if a == 0 {
            x == s.cfg.board && y == s.cfg.board
        } else {
            x == 0 && y == 0
        };
        if won {
            assert(r.unwrap()[1] == Event::PlayerWon { player_id: a });
        } else {
            assert(r.unwrap() =~= seq![Event::PlayerMoved { player_id: a, x, y }]);
            if r.unwrap().contains(Event::PlayerWon { player_id: a }) {
                let i = choose|i: int|
                    0 <= i < r.unwrap().len() && r.unwrap()[i] == Event::PlayerWon {
                        player_id: a,
                    };
                assert(r.unwrap()[i] == Event::PlayerMoved { player_id: a, x, y });
            }
        }
    }
}

} // verus!
