use vstd::prelude::*;
use crate::model::{
    has_key, initial_state, key_index, lemma_key_index, lemma_push_fresh_key,
    lemma_update_same_key, out_matches, spec_confirm, spec_join, spec_place, spec_reveal,
    spec_start, spec_take_move, standard_config, MatchV, CRITICAL_HEALTH,
};
use crate::hashing::{bytes_eq_str, compute_commitment};
use crate::types::{Blocker, Config, Event, GameError, Player, Position, VariantCfg};

verus! {

broadcast use vstd::array::group_array_axioms;

/// The aggregate match record: two seats, the commit-reveal ledger, the turn
/// counter, and the fixed ruleset it was created with.
pub struct AppState {
    pub player1: Player,
    pub player2: Player,
    pub blockers: Vec<(String, Blocker)>,
    pub round: u64,
    pub config: Config,
}

impl View for AppState {
    type V = MatchV;

    open spec fn view(&self) -> MatchV {
        MatchV {
            p1: self.player1@,
            p2: self.player2@,
            blockers: Seq::new(
                self.blockers@.len(),
                |i: int| (self.blockers@[i].0@, self.blockers@[i].1),
            ),
            round: self.round,
            cfg: self.config@,
        }
    }
}

/// Compares two caller identifiers.
fn ids_equal(a: &[u8; 32], b: &[u8; 32]) -> (r: bool)
    ensures
        r == (a@ == b@),
{
    let mut i: usize = 0;
    while i < 32
        invariant
            i <= 32,
            forall|j: int| 0 <= j < i ==> a@[j] == b@[j],
        decreases 32 - i,
    {
        if a[i] != b[i] {
            return false;
        }
        i += 1;
    }
    proof {
        assert(a@ =~= b@);
    }
    true
}

/// Finds the ledger entry stored under a commitment, if any.
fn find_blocker(bs: &Vec<(String, Blocker)>, key: &String) -> (r: Option<usize>)
    ensures
        match r {
            Some(i) => i < bs@.len() && bs@[i as int].0@ == key@,
            None => forall|j: int| 0 <= j < bs@.len() ==> (#[trigger] bs@[j]).0@ != key@,
        },
{
    let mut i: usize = 0;
    while i < bs.len()
        invariant
            i <= bs.len(),
            forall|j: int| 0 <= j < i ==> (#[trigger] bs@[j]).0@ != key@,
        decreases bs.len() - i,
    {
        if bs[i].0 == *key {
            return Some(i);
        }
        i += 1;
    }
    None
}

impl Config {
    /// The deployed ruleset, as `standard_config` states it.
    pub fn standard() -> (c: Config)
        ensures
            c@ == standard_config(),
            c@.wf(),
    {
        let mut variants: Vec<VariantCfg> = Vec::new();
        variants.push(VariantCfg { damage: 0, lock: 1, critical_lock: 2, cap: 15 });
        variants.push(VariantCfg { damage: 5, lock: 0, critical_lock: 3, cap: 11 });
        variants.push(VariantCfg { damage: 5, lock: 2, critical_lock: 4, cap: 9 });
        let c = Config {
            board: 11,
            health: 15,
            budget: 36,
            step: 3,
            join_self_confirms: true,
            variants,
        };
        proof {
            assert(c@.variants =~= standard_config().variants);
            assert(c@ =~~= standard_config());
        }
        c
    }
}

/// A seat before anyone takes it.
fn empty_player(n: usize) -> (p: Player)
    ensures
        p@.id == Seq::new(32, |i: int| 0u8),
        p@.usage_counts == Seq::new(n as nat, |i: int| 0u32),
        !p@.is_seated,
        !p@.is_ready,
        p@.x == 0 && p@.y == 0,
        p@.health == 0 && p@.remaining_blocker == 0 && p@.locked_count == 0,
{
    let mut usage_counts: Vec<u32> = Vec::new();
    let mut i: usize = 0;
    while i < n
        invariant
            i <= n,
            usage_counts@ =~= Seq::new(i as nat, |j: int| 0u32),
        decreases n - i,
    {
        usage_counts.push(0);
        proof {
            assert(usage_counts@ =~= Seq::new(i as nat + 1, |j: int| 0u32));
        }
        i += 1;
    }
    let p = Player {
        id: [0u8; 32],
        is_seated: false,
        is_ready: false,
        position: Position { x: 0, y: 0 },
        health: 0,
        remaining_blocker: 0,
        locked_count: 0,
        usage_counts,
    };
    proof {
        assert(p.id@ =~= Seq::new(32, |i: int| 0u8));
    }
    p
}

impl AppState {
    /// Creates an empty match under the deployed ruleset.
    pub fn init() -> (s: AppState)
        ensures
            s@ == initial_state(standard_config()),
            s@.wf(),
    {
        AppState::init_with_config(Config::standard())
    }

    /// Creates an empty match under the given ruleset.
    pub fn init_with_config(config: Config) -> (s: AppState)
        requires
            config@.wf(),
        ensures
            s@ == initial_state(config@),
            s@.wf(),
    {
        let n = config.variants.len();
        let s = AppState {
            player1: empty_player(n),
            player2: empty_player(n),
            blockers: Vec::new(),
            round: 0,
            config,
        };
        proof {
            assert(s@.p1 =~~= crate::model::empty_player(s@.cfg));
            assert(s@.p2 =~~= crate::model::empty_player(s@.cfg));
            assert(s@ =~~= initial_state(s@.cfg));
        }
        s
    }

    /// Read accessor over both seats; no authorization, no mutation.
    pub fn get_players_state(&self) -> (r: (&Player, &Player))
        ensures
            r.0@ == self@.p1,
            r.1@ == self@.p2,
    {
        (&self.player1, &self.player2)
    }

    /// Read accessor over the turn counter.
    pub fn get_round(&self) -> (r: &u64)
        ensures
            *r == self@.round,
    {
        &self.round
    }

    /// Takes seat 0 for the caller. See `spec_start` for the full behaviour.
    pub fn start_room(&mut self, caller: [u8; 32]) -> (r: Result<Vec<Event>, GameError>)
        requires
            old(self)@.wf(),
        ensures
            final(self)@.wf(),
            final(self)@ == spec_start(old(self)@, caller@).0,
            out_matches(r, spec_start(old(self)@, caller@).1),
    {
        if self.player1.is_seated {
            return Err(GameError::AlreadyStarted);
        }
        self.player1.id = caller;
        self.player1.is_seated = true;
        self.player1.is_ready = true;
        self.player1.health = self.config.health;
        self.player1.remaining_blocker = self.config.budget;
        let mut ev: Vec<Event> = Vec::new();
        ev.push(Event::PlayerReady { player_id: 0 });
        proof {
            assert(self@ =~~= spec_start(old(self)@, caller@).0);
            assert(ev@ =~= seq![Event::PlayerReady { player_id: 0u8 }]);
        }
        Ok(ev)
    }

    /// Takes seat 1 for the caller. See `spec_join` for the full behaviour.
    pub fn join_room(&mut self, caller: [u8; 32]) -> (r: Result<Vec<Event>, GameError>)
        requires
            old(self)@.wf(),
        ensures
            final(self)@.wf(),
            final(self)@ == spec_join(old(self)@, caller@).0,
            out_matches(r, spec_join(old(self)@, caller@).1),
    {
        if !self.player1.is_ready {
            return Err(GameError::NotReady);
        }
        if self.player2.is_seated {
            return Err(GameError::SeatTaken);
        }
        self.player2.id = caller;
        self.player2.is_seated = true;
        self.player2.is_ready = self.config.join_self_confirms;
        self.player2.health = self.config.health;
        self.player2.remaining_blocker = self.config.budget;
        self.player2.position.x = self.config.board;
        self.player2.position.y = self.config.board;
        let mut ev: Vec<Event> = Vec::new();
        if self.config.join_self_confirms {
            ev.push(Event::PlayerReady { player_id: 1 });
        }
        proof {
            assert(self@ =~~= spec_join(old(self)@, caller@).0);
            if self.config.join_self_confirms {
                assert(ev@ =~= seq![Event::PlayerReady { player_id: 1u8 }]);
            } else {
                assert(ev@ =~= Seq::<Event>::empty());
            }
        }
        Ok(ev)
    }

    /// The explicit readiness confirmation of a ruleset whose joins do not
    /// self-confirm. See `spec_confirm` for the full behaviour.
    pub fn confirm_ready(&mut self) -> (r: Result<Vec<Event>, GameError>)
        requires
            old(self)@.wf(),
        ensures
            final(self)@.wf(),
            final(self)@ == spec_confirm(old(self)@).0,
            out_matches(r, spec_confirm(old(self)@).1),
    {
        if !self.player2.is_seated {
            return Err(GameError::NotReady);
        }
        if self.player2.is_ready {
            return Err(GameError::AlreadyStarted);
        }
        self.player2.is_ready = true;
        let mut ev: Vec<Event> = Vec::new();
        ev.push(Event::PlayerReady { player_id: 1 });
        proof {
            assert(self@ =~~= spec_confirm(old(self)@).0);
            assert(ev@ =~= seq![Event::PlayerReady { player_id: 1u8 }]);
        }
        Ok(ev)
    }

    /// One turn of the active seat: a locked seat consumes the turn in place,
    /// an unlocked one moves within board bounds and step size. See
    /// `spec_take_move` for the full behaviour.
    pub fn take_move_chance(&mut self, caller: [u8; 32], x: i64, y: i64) -> (r: Result<
        Vec<Event>,
        GameError,
    >)
        requires
            old(self)@.wf(),
            old(self).round < u64::MAX,
        ensures
            final(self)@.wf(),
            final(self)@ == spec_take_move(old(self)@, caller@, x, y).0,
            out_matches(r, spec_take_move(old(self)@, caller@, x, y).1),
    {
        if !self.player1.is_ready || !self.player2.is_ready {
            return Err(GameError::NotReady);
        }
        let p1_active = self.round % 2 == 0;
        let auth = if p1_active {
            ids_equal(&self.player1.id, &caller)
        } else {
            ids_equal(&self.player2.id, &caller)
        };
        if !auth {
            return Err(GameError::WrongTurn);
        }
        let locked = if p1_active {
            self.player1.locked_count
        } else {
            self.player2.locked_count
        };
        if locked > 0 {
            let mut ev: Vec<Event> = Vec::new();
            if p1_active {
                self.player1.locked_count = locked - 1;
                ev.push(
                    Event::PlayerMoved {
                        player_id: 0,
                        x: self.player1.position.x,
                        y: self.player1.position.y,
                    },
                );
                if self.player1.locked_count == 0 {
                    if self.player1.health <= CRITICAL_HEALTH {
                        self.player1.health = self.config.health;
                    }
                    ev.push(Event::PlayerUnlocked { player_id: 0 });
                }
            } else {
                self.player2.locked_count = locked - 1;
                ev.push(
                    Event::PlayerMoved {
                        player_id: 1,
                        x: self.player2.position.x,
                        y: self.player2.position.y,
                    },
                );
                if self.player2.locked_count == 0 {
                    if self.player2.health <= CRITICAL_HEALTH {
                        self.player2.health = self.config.health;
                    }
                    ev.push(Event::PlayerUnlocked { player_id: 1 });
                }
            }
            self.round = self.round + 1;
            proof {
                assert(self@ =~~= spec_take_move(old(self)@, caller@, x, y).0);
                assert(ev@ =~= spec_take_move(old(self)@, caller@, x, y).1.unwrap());
            }
            return Ok(ev);
        }
        if x < 0 || x > self.config.board || y < 0 || y > self.config.board {
            return Err(GameError::InvalidPosition);
        }
        let cx = if p1_active {
            self.player1.position.x
        } else {
            self.player2.position.x
        };
        let cy = if p1_active {
            self.player1.position.y
        } else {
            self.player2.position.y
        };
        let dx = if cx >= x {
            cx - x
        } else {
            x - cx
        };
        let dy = if cy >= y {
            cy - y
        } else {
            y - cy
        };
        if dx > self.config.step || dy > self.config.step {
            return Err(GameError::InvalidPosition);
        }
        let mut ev: Vec<Event> = Vec::new();
        if p1_active {
            self.player1.position.x = x;
            self.player1.position.y = y;
            ev.push(Event::PlayerMoved { player_id: 0, x, y });
            if x == self.config.board && y == self.config.board {
                ev.push(Event::PlayerWon { player_id: 0 });
            }
        } else {
            self.player2.position.x = x;
            self.player2.position.y = y;
            ev.push(Event::PlayerMoved { player_id: 1, x, y });
            if x == 0 && y == 0 {
                ev.push(Event::PlayerWon { player_id: 1 });
            }
        }
        self.round = self.round + 1;
        proof {
            assert(self@ =~~= spec_take_move(old(self)@, caller@, x, y).0);
            assert(ev@ =~= spec_take_move(old(self)@, caller@, x, y).1.unwrap());
        }
        Ok(ev)
    }

    /// Spends one budget unit of the active seat to record a masked blocker
    /// under a fresh commitment. See `spec_place` for the full behaviour.
    pub fn place_blocker(&mut self, caller: [u8; 32], blocker_hash: String) -> (r: Result<
        Vec<Event>,
        GameError,
    >)
        requires
            old(self)@.wf(),
            old(self).round < u64::MAX,
        ensures
            final(self)@.wf(),
            final(self)@ == spec_place(old(self)@, caller@, blocker_hash@).0,
            out_matches(r, spec_place(old(self)@, caller@, blocker_hash@).1),
    {
        let p1_active = self.round % 2 == 0;
        let auth = if p1_active {
            ids_equal(&self.player1.id, &caller)
        } else {
            ids_equal(&self.player2.id, &caller)
        };
        if !auth {
            return Err(GameError::WrongTurn);
        }
        let remaining = if p1_active {
            self.player1.remaining_blocker
        } else {
            self.player2.remaining_blocker
        };
        if remaining == 0 {
            return Err(GameError::NoBudget);
        }
        match find_blocker(&self.blockers, &blocker_hash) {
            Some(i) => {
                proof {
                    assert(self@.blockers[i as int].0 == blocker_hash@);
                    assert(has_key(self@.blockers, blocker_hash@));
                }
                return Err(GameError::DuplicateCommitment);
            },
            None => {
                proof {
                    assert(!has_key(self@.blockers, blocker_hash@));
                }
            },
        }
        if p1_active {
            self.player1.remaining_blocker = remaining - 1;
        } else {
            self.player2.remaining_blocker = remaining - 1;
        }
        let b = Blocker {
            is_active: true,
            position: Position { x: 0, y: 0 },
            player: if p1_active {
                0
            } else {
                1
            },
            variant: 0,
        };
        self.blockers.push((blocker_hash, b));
        self.round = self.round + 1;
        let mut ev: Vec<Event> = Vec::new();
        ev.push(
            Event::BlockerPlaced {
                player_id: if p1_active {
                    0
                } else {
                    1
                },
            },
        );
        proof {
            lemma_push_fresh_key(old(self)@.blockers, blocker_hash@, b);
            assert(self@.blockers =~= old(self)@.blockers.push((blocker_hash@, b)));
            assert(self@ =~~= spec_place(old(self)@, caller@, blocker_hash@).0);
            assert(ev@ =~= spec_place(old(self)@, caller@, blocker_hash@).1.unwrap());
        }
        Ok(ev)
    }

    /// Proves and resolves a placed blocker: the supplied preimage must hash
    /// to the stored commitment, the blocker must still be active, and the
    /// revealed coordinates must be the opposing seat's current position; the
    /// variant's effects then strike that seat. See `spec_reveal` for the
    /// full behaviour.
    pub fn inform_blocker(
        &mut self,
        caller: [u8; 32],
        variant: u8,
        x: i64,
        y: i64,
        blocker_hash: String,
        secret: String,
    ) -> (r: Result<Vec<Event>, GameError>)
        requires
            old(self)@.wf(),
        ensures
            final(self)@.wf(),
            final(self)@ == spec_reveal(
                old(self)@,
                caller@,
                variant,
                x,
                y,
                blocker_hash@,
                secret@,
            ).0,
            out_matches(
                r,
                spec_reveal(old(self)@, caller@, variant, x, y, blocker_hash@, secret@).1,
            ),
    {
        let ghost step = spec_reveal(old(self)@, caller@, variant, x, y, blocker_hash@, secret@);
        let p1_active = self.round % 2 == 0;
        let auth = if p1_active {
            ids_equal(&self.player1.id, &caller)
        } else {
            ids_equal(&self.player2.id, &caller)
        };
        if !auth {
            return Err(GameError::WrongTurn);
        }
        let computed = compute_commitment(variant, x, y, secret.as_str());
        if !bytes_eq_str(&computed, blocker_hash.as_str()) {
            return Err(GameError::ProofMismatch);
        }
        let idx = match find_blocker(&self.blockers, &blocker_hash) {
            Some(i) => i,
            None => {
                proof {
                    assert(!has_key(self@.blockers, blocker_hash@));
                }
                return Err(GameError::UnknownOrResolvedTrap);
            },
        };
        proof {
            assert(self@.blockers[idx as int].0 == blocker_hash@);
            assert(has_key(self@.blockers, blocker_hash@));
            lemma_key_index(self@.blockers, blocker_hash@);
            assert(key_index(self@.blockers, blocker_hash@) == idx as int);
        }
        let b = self.blockers[idx].1;
        if !b.is_active {
            return Err(GameError::UnknownOrResolvedTrap);
        }
        let (tx, ty) = if p1_active {
            (self.player2.position.x, self.player2.position.y)
        } else {
            (self.player1.position.x, self.player1.position.y)
        };
        if tx != x || ty != y {
            return Err(GameError::TargetMismatch);
        }
        let vi = variant as usize;
        let mut ev: Vec<Event> = Vec::new();
        if vi < self.config.variants.len() {
            let cnt = if p1_active {
                self.player1.usage_counts[vi]
            } else {
                self.player2.usage_counts[vi]
            };
            let vc = self.config.variants[vi];
            if cnt >= vc.cap {
                return Err(GameError::VariantCapReached);
            }
            if p1_active {
                self.player1.usage_counts[vi] = cnt + 1;
                let th = self.player2.health;
                let nh = if th >= vc.damage {
                    th - vc.damage
                } else {
                    0
                };
                self.player2.health = nh;
                if vc.lock > 0 {
                    self.player2.locked_count = vc.lock;
                }
                if nh <= CRITICAL_HEALTH {
                    self.player2.locked_count = vc.critical_lock;
                }
                if vc.lock > 0 || nh <= CRITICAL_HEALTH {
                    ev.push(Event::PlayerLocked { player_id: 1 });
                }
            } else {
                self.player2.usage_counts[vi] = cnt + 1;
                let th = self.player1.health;
                let nh = if th >= vc.damage {
                    th - vc.damage
                } else {
                    0
                };
                self.player1.health = nh;
                if vc.lock > 0 {
                    self.player1.locked_count = vc.lock;
                }
                if nh <= CRITICAL_HEALTH {
                    self.player1.locked_count = vc.critical_lock;
                }
                if vc.lock > 0 || nh <= CRITICAL_HEALTH {
                    ev.push(Event::PlayerLocked { player_id: 0 });
                }
            }
        }
        let nb = Blocker {
            is_active: false,
            position: Position { x, y },
            player: b.player,
            variant,
        };
        self.blockers[idx] = (blocker_hash, nb);
        ev.push(Event::BlockerRevealed { x, y, variant });
        proof {
            lemma_update_same_key(old(self)@.blockers, idx as int, nb);
            assert(self@.blockers =~= old(self)@.blockers.update(
                idx as int,
                (blocker_hash@, nb),
            ));
            assert(self@ =~~= step.0);
            assert(ev@ =~= step.1.unwrap());
        }
        Ok(ev)
    }
}

} // verus!
