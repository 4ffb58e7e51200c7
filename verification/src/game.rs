//! The authoritative registry of participants.
//!
//! The registry maps a participant identity to its `Player` entry. All
//! operations go through `&mut` (or shared `&`) borrows of the whole
//! registry, so in a running server one coarse lock around the
//! registry serializes every operation: each call observes and
//! produces a complete state, never a partially applied one. Entries
//! are kept in insertion order with unique identities.

use vstd::prelude::*;

use crate::car::Car;
use crate::car::CarView;
use crate::car::Control;
use crate::car::DEFAULT_ACCELERATION;
use crate::car::DEFAULT_ANGLE_DELTA;
use crate::car::DEFAULT_FRICTION;
use crate::car::DEFAULT_MAX_SPEED;
use crate::car::CarConfig;

verus! {

/// A participant identity: hashable, comparable, cloneable, so the
/// registry composes with whatever connection handle the transport
/// uses as a key.
pub trait Id: core::hash::Hash + Eq + Clone {
}

impl Id for u64 {
}

/// Spawn position and extents of a newly created participant.
pub const SPAWN_X: i64 = 100 * 65536;

/// Spawn position and extents of a newly created participant.
pub const SPAWN_Y: i64 = 100 * 65536;

/// Spawn position and extents of a newly created participant.
pub const SPAWN_WIDTH: i64 = 60 * 65536;

/// Spawn position and extents of a newly created participant.
pub const SPAWN_HEIGHT: i64 = 80 * 65536;

/// A registry failure: the identity was not registered.
#[derive(Debug, Clone, Copy, PartialEq, Eq, Structural)]
pub enum GameError {
    NotFound(u64),
}

/// One registry entry: a participant identity and its car.
#[derive(Debug, Clone, Copy, PartialEq, Eq, Structural)]
pub struct Player {
    pub id: u64,
    pub car: Car,
}

impl Player {
    /// An entry from its parts.
    pub fn new(id: u64, car: Car) -> (p: Player)
        ensures
            p == (Player { id, car }),
    {
        Player { id, car }
    }
}

/// The car a new participant spawns with.
pub open spec fn spawn_car() -> Car {
    Car {
        x: SPAWN_X,
        y: SPAWN_Y,
        width: SPAWN_WIDTH,
        height: SPAWN_HEIGHT,
        config: CarConfig {
            speed: 0,
            acceleration: DEFAULT_ACCELERATION,
            max_speed: DEFAULT_MAX_SPEED,
            friction: DEFAULT_FRICTION,
            angle: 0,
            angle_delta: DEFAULT_ANGLE_DELTA,
        },
        control: Control { forward: false, reverse: false, left: false, right: false },
    }
}

/// A player with the mutation payload written into its car: position,
/// control flags and the full configuration are overwritten, the
/// extents and the identity are kept.
pub open spec fn apply_car_view(p: Player, v: CarView) -> Player {
    Player {
        id: p.id,
        car: Car {
            x: v.x,
            y: v.y,
            width: p.car.width,
            height: p.car.height,
            config: v.config,
            control: Control {
                forward: v.forward,
                reverse: v.reverse,
                left: v.left,
                right: v.right,
            },
        },
    }
}

/// The concurrent participant store: a mapping from identity to
/// entry, to be guarded as a whole by one lock in the embedding
/// program.
pub struct BumperCars {
    players: Vec<Player>,
}

impl BumperCars {
    /// The entries in insertion order.
    pub closed spec fn entries(self) -> Seq<Player> {
        self.players@
    }

    /// Identities are unique: the sequence is a mapping.
    pub open spec fn wf(self) -> bool {
        forall|i: int, j: int|
            0 <= i < j < self.entries().len() ==> #[trigger] self.entries()[i].id
                != #[trigger] self.entries()[j].id
    }

    /// Whether some entry carries this identity.
    pub open spec fn contains_id(self, id: u64) -> bool {
        exists|k: int| 0 <= k < self.entries().len() && #[trigger] self.entries()[k].id == id
    }

    /// The position of the entry with this identity.
    pub open spec fn index_of(self, id: u64) -> int {
        choose|k: int| 0 <= k < self.entries().len() && #[trigger] self.entries()[k].id == id
    }

    /// The entry with this identity.
    pub open spec fn entry(self, id: u64) -> Player {
        self.entries()[self.index_of(id)]
    }

    /// An empty registry.
    pub fn new() -> (game: BumperCars)
        ensures
            game.entries() == Seq::<Player>::empty(),
            game.wf(),
    {
        BumperCars { players: Vec::new() }
    }

    /// How many participants are registered.
    pub fn len(&self) -> (n: usize)
        ensures
            n == self.entries().len(),
    {
        self.players.len()
    }

    fn find(&self, id: u64) -> (found: Option<usize>)
        ensures
            match found {
                Some(k) => 0 <= k < self.entries().len() && self.entries()[k as int].id == id
                    && (forall|j: int| 0 <= j < k ==> #[trigger] self.entries()[j].id != id),
                None => !self.contains_id(id),
            },
    {
        let mut k: usize = 0;
        while k < self.players.len()
            invariant
                k <= self.players.len(),
                forall|j: int| 0 <= j < k ==> #[trigger] self.players@[j].id != id,
            decreases self.players.len() - k,
        {
            if self.players[k].id == id {
                return Some(k);
            }
            k = k + 1;
        }
        None
    }

    /// A copy of the entry with this identity, or `NotFound` if the
    /// identity is not registered — a recoverable error, never a
    /// failure of the whole registry.
    pub fn get_player(&self, id: u64) -> (r: Result<Player, GameError>)
        requires
            self.wf(),
        ensures
            match r {
                Ok(p) => self.contains_id(id) && p == self.entry(id),
                Err(e) => !self.contains_id(id) && e == GameError::NotFound(id),
            },
    {
        match self.find(id) {
            Some(k) => {
                proof {
                    lemma_index_of_unique(*self, id, k as int);
                }
                Ok(self.players[k])
            },
            None => Err(GameError::NotFound(id)),
        }
    }

    /// Insert an entry under this identity, silently overwriting any
    /// entry already registered under it.
    pub fn add_player(&mut self, id: u64, player: Player)
        requires
            old(self).wf(),
            player.id == id,
        ensures
            final(self).wf(),
            final(self).contains_id(id),
            final(self).entry(id) == player,
            forall|other: u64|
                other != id ==> #[trigger] final(self).contains_id(other) == old(self).contains_id(other),
            forall|other: u64|
                other != id && old(self).contains_id(other) ==> #[trigger] final(self).entry(other)
                    == old(self).entry(other),
            old(self).contains_id(id) ==> final(self).entries() == old(self).entries().update(
                old(self).index_of(id),
                player,
            ),
            !old(self).contains_id(id) ==> final(self).entries() == old(self).entries().push(
                player,
            ),
    {
        let found = self.find(id);
        match found {
            Some(k) => {
                proof {
                    lemma_index_of_unique(*self, id, k as int);
                }
                self.players.set(k, player);
                proof {
                    lemma_entry_update(*old(self), *self, id, k as int, player);
                }
            },
            None => {
                self.players.push(player);
                proof {
                    lemma_entry_push(*old(self), *self, id, player);
                }
            },
        }
    }

    /// Remove and return the entry with this identity; absence is
    /// signalled, not an error.
    pub fn remove_player(&mut self, id: u64) -> (r: Option<Player>)
        requires
            old(self).wf(),
        ensures
            final(self).wf(),
            !final(self).contains_id(id),
            match r {
                Some(p) => old(self).contains_id(id) && p == old(self).entry(id) && final(self).entries() == old(self).entries().remove(old(self).index_of(id)),
                None => !old(self).contains_id(id) && final(self).entries() == old(self).entries(),
            },
            forall|other: u64|
                other != id ==> #[trigger] final(self).contains_id(other) == old(self).contains_id(other),
            forall|other: u64|
                other != id && old(self).contains_id(other) ==> #[trigger] final(self).entry(other)
                    == old(self).entry(other),
    {
        let found = self.find(id);
        match found {
            Some(k) => {
                proof {
                    lemma_index_of_unique(*self, id, k as int);
                }
                let p = self.players.remove(k);
                proof {
                    lemma_entry_remove(*old(self), *self, id, k as int);
                }
                Some(p)
            },
            None => None,
        }
    }

    /// Write a mutation payload into the entry with this identity:
    /// position, control flags and configuration are overwritten in
    /// one step, the extents and identity are kept. A payload for an
    /// unregistered identity is silently ignored — an update racing a
    /// disconnect must not fail — and leaves the registry unchanged.
    pub fn update_player(&mut self, id: u64, player: CarView)
        requires
            old(self).wf(),
        ensures
            final(self).wf(),
            old(self).contains_id(id) ==> final(self).entries() == old(self).entries().update(
                old(self).index_of(id),
                apply_car_view(old(self).entry(id), player),
            ),
            old(self).contains_id(id) ==> final(self).contains_id(id) && final(self).entry(id)
                == apply_car_view(old(self).entry(id), player),
            !old(self).contains_id(id) ==> final(self).entries() == old(self).entries(),
            forall|other: u64|
                other != id ==> #[trigger] final(self).contains_id(other) == old(self).contains_id(other),
            forall|other: u64|
                other != id && old(self).contains_id(other) ==> #[trigger] final(self).entry(other)
                    == old(self).entry(other),
    {
        let found = self.find(id);
        match found {
            Some(k) => {
                proof {
                    lemma_index_of_unique(*self, id, k as int);
                }
                let current = self.players[k];
                let updated = Player {
                    id: current.id,
                    car: Car {
                        x: player.x,
                        y: player.y,
                        width: current.car.width,
                        height: current.car.height,
                        config: player.config,
                        control: Control {
                            forward: player.forward,
                            reverse: player.reverse,
                            left: player.left,
                            right: player.right,
                        },
                    },
                };
                self.players.set(k, updated);
                proof {
                    lemma_entry_update(*old(self), *self, id, k as int, updated);
                }
            },
            None => {},
        }
    }

    /// Create a participant: a fresh entry with the spawn car is
    /// registered under this identity (overwriting any stale entry)
    /// and a copy is returned for the initial acknowledgement.
    pub fn create_player(&mut self, id: u64) -> (p: Player)
        requires
            old(self).wf(),
        ensures
            final(self).wf(),
            p == (Player { id, car: spawn_car() }),
            final(self).contains_id(id),
            final(self).entry(id) == p,
            forall|other: u64|
                other != id ==> #[trigger] final(self).contains_id(other) == old(self).contains_id(other),
            forall|other: u64|
                other != id && old(self).contains_id(other) ==> #[trigger] final(self).entry(other)
                    == old(self).entry(other),
    {
        let car = Car::new(SPAWN_X, SPAWN_Y, SPAWN_WIDTH, SPAWN_HEIGHT);
        let player = Player::new(id, car);
        self.add_player(id, player);
        player
    }

    /// A consistent snapshot of every entry except the one with this
    /// identity, in registry order, for broadcast to that participant.
    /// One call reads the whole registry at one instant: under the
    /// registry's lock no update or removal interleaves with it.
    pub fn snapshot_excluding(&self, id: u64) -> (r: Vec<Player>)
        ensures
            r@ == self.entries().filter(|p: Player| p.id != id),
    {
        let mut r: Vec<Player> = Vec::new();
        let mut k: usize = 0;
        proof {
            assert(self.entries().subrange(0, 0) =~= Seq::<Player>::empty());
            reveal(Seq::filter);
        }
        while k < self.players.len()
            invariant
                k <= self.players.len(),
                self.entries() == self.players@,
                r@ == self.entries().subrange(0, k as int).filter(|p: Player| p.id != id),
            decreases self.players.len() - k,
        {
            let p = self.players[k];
            proof {
                reveal(Seq::filter);
                let prefix = self.entries().subrange(0, k as int);
                let next = self.entries().subrange(0, k as int + 1);
                assert(next.drop_last() =~= prefix);
                assert(next.last() == self.entries()[k as int]);
            }
            if p.id != id {
                r.push(p);
            }
            k = k + 1;
        }
        proof {
            assert(self.entries().subrange(0, self.entries().len() as int) =~= self.entries());
        }
        r
    }

    /// A copy of the caller's own entry, if it is registered, for
    /// self-acknowledgement.
    pub fn snapshot_for(&self, id: u64) -> (r: Option<Player>)
        requires
            self.wf(),
        ensures
            match r {
                Some(p) => self.contains_id(id) && p == self.entry(id),
                None => !self.contains_id(id),
            },
    {
        match self.get_player(id) {
            Ok(p) => Some(p),
            Err(_) => None,
        }
    }
}

proof fn lemma_index_of_unique(game: BumperCars, id: u64, k: int)
    requires
        game.wf(),
        0 <= k < game.entries().len(),
        game.entries()[k].id == id,
    ensures
        game.index_of(id) == k,
        game.contains_id(id),
        game.entry(id) == game.entries()[k],
{
    assert(game.contains_id(id));
    let c = game.index_of(id);
    if c != k {
        assert(game.entries()[c].id != game.entries()[k].id);
    }
}

proof fn lemma_entry_update(prev: BumperCars, cur: BumperCars, id: u64, k: int, player: Player)
    requires
        prev.wf(),
        0 <= k < prev.entries().len(),
        prev.entries()[k].id == id,
        cur.entries() == prev.entries().update(k, player),
        player.id == id,
    ensures
        cur.wf(),
        cur.contains_id(id),
        cur.index_of(id) == k,
        cur.entry(id) == player,
        forall|other: u64|
            other != id ==> #[trigger] cur.contains_id(other) == prev.contains_id(other),
        forall|other: u64|
            other != id && prev.contains_id(other) ==> #[trigger] cur.entry(other) == prev.entry(
                other,
            ),
{
    lemma_index_of_unique(prev, id, k);
    {
        assert forall|i: int, j: int| 0 <= i < j < cur.entries().len() implies #[trigger] cur.entries()[i].id != #[trigger] cur.entries()[j].id by {
            assert(prev.entries()[i].id != prev.entries()[j].id);
        }
        lemma_index_of_unique(cur, id, k);
        assert forall|other: u64| other != id implies #[trigger] cur.contains_id(other)
            == prev.contains_id(other) by {
            if prev.contains_id(other) {
                let i = prev.index_of(other);
                assert(cur.entries()[i].id == other);
            }
            if cur.contains_id(other) {
                let i = cur.index_of(other);
                assert(prev.entries()[i].id == other);
            }
        }
        assert forall|other: u64| other != id && prev.contains_id(other) implies #[trigger] cur.entry(
            other,
        ) == prev.entry(other) by {
            let i = prev.index_of(other);
            assert(cur.entries()[i].id == other);
            lemma_index_of_unique(cur, other, i);
        }
    }
}

proof fn lemma_entry_push(prev: BumperCars, cur: BumperCars, id: u64, player: Player)
    requires
        prev.wf(),
        !prev.contains_id(id),
        player.id == id,
        cur.entries() == prev.entries().push(player),
    ensures
        cur.wf(),
        cur.contains_id(id),
        cur.entry(id) == player,
        forall|other: u64|
            other != id ==> #[trigger] cur.contains_id(other) == prev.contains_id(other),
        forall|other: u64|
            other != id && prev.contains_id(other) ==> #[trigger] cur.entry(other) == prev.entry(
                other,
            ),
{
    let n = prev.entries().len() as int;
    assert forall|i: int, j: int| 0 <= i < j < cur.entries().len() implies #[trigger] cur.entries()[i].id != #[trigger] cur.entries()[j].id by {
        if j < n {
            assert(prev.entries()[i].id != prev.entries()[j].id);
        } else {
            assert(cur.entries()[j] == player);
            if cur.entries()[i].id == id {
                assert(prev.entries()[i].id == id);
                assert(prev.contains_id(id));
            }
        }
    }
    assert(cur.entries()[n].id == id);
    lemma_index_of_unique(cur, id, n);
    assert forall|other: u64| other != id implies #[trigger] cur.contains_id(other)
        == prev.contains_id(other) by {
        if prev.contains_id(other) {
            let i = prev.index_of(other);
            assert(cur.entries()[i].id == other);
        }
        if cur.contains_id(other) {
            let i = cur.index_of(other);
            assert(cur.entries()[i].id == other);
            if i < n {
                assert(prev.entries()[i].id == other);
            }
        }
    }
    assert forall|other: u64| other != id && prev.contains_id(other) implies #[trigger] cur.entry(
        other,
    ) == prev.entry(other) by {
        let i = prev.index_of(other);
        assert(cur.entries()[i].id == other);
        lemma_index_of_unique(cur, other, i);
    }
}

proof fn lemma_entry_remove(prev: BumperCars, cur: BumperCars, id: u64, k: int)
    requires
        prev.wf(),
        0 <= k < prev.entries().len(),
        prev.entries()[k].id == id,
        cur.entries() == prev.entries().remove(k),
    ensures
        cur.wf(),
        !cur.contains_id(id),
        forall|other: u64|
            other != id ==> #[trigger] cur.contains_id(other) == prev.contains_id(other),
        forall|other: u64|
            other != id && prev.contains_id(other) ==> #[trigger] cur.entry(other) == prev.entry(
                other,
            ),
{
    lemma_index_of_unique(prev, id, k);
    let n = cur.entries().len() as int;
    assert forall|i: int, j: int| 0 <= i < j < n implies #[trigger] cur.entries()[i].id
        != #[trigger] cur.entries()[j].id by {
        let pi = if i < k {
            i
        } else {
            i + 1
        };
        let pj = if j < k {
            j
        } else {
            j + 1
        };
        assert(cur.entries()[i] == prev.entries()[pi]);
        assert(cur.entries()[j] == prev.entries()[pj]);
        assert(prev.entries()[pi].id != prev.entries()[pj].id);
    }
    if cur.contains_id(id) {
        let i = cur.index_of(id);
        let pi = if i < k {
            i
        } else {
            i + 1
        };
        assert(cur.entries()[i] == prev.entries()[pi]);
        assert(prev.entries()[pi].id != prev.entries()[k].id);
    }
    assert forall|other: u64| other != id implies #[trigger] cur.contains_id(other)
        == prev.contains_id(other) by {
        if prev.contains_id(other) {
            let i = prev.index_of(other);
            let ci = if i < k {
                i
            } else {
                i - 1
            };
            assert(cur.entries()[ci] == prev.entries()[i]);
        }
        if cur.contains_id(other) {
            let i = cur.index_of(other);
            let pi = if i < k {
                i
            } else {
                i + 1
            };
            assert(prev.entries()[pi] == cur.entries()[i]);
        }
    }
    assert forall|other: u64| other != id && prev.contains_id(other) implies #[trigger] cur.entry(
        other,
    ) == prev.entry(other) by {
        let i = prev.index_of(other);
        let ci = if i < k {
            i
        } else {
            i - 1
        };
        assert(cur.entries()[ci] == prev.entries()[i]);
        lemma_index_of_unique(cur, other, ci);
    }
}

/// A later mutation payload completely overwrites an earlier one:
/// applying `a` and then `b` to an entry leaves exactly the state
/// `b` alone would, so two serialized updates can never produce an
/// entry mixing fields of both payloads. Together with the registry's
/// one-payload-per-call contract this is the atomicity of `update`:
/// every observer sees some whole payload, never a blend.
pub proof fn lemma_update_last_payload_wins(p: Player, a: CarView, b: CarView)
    ensures
        apply_car_view(apply_car_view(p, a), b) == apply_car_view(p, b),
{
}

/// A lookup of an absent identity can only report `NotFound` for that
/// identity: any result admitted by the lookup contract is that very
/// error, never some stale entry.
pub proof fn lemma_get_absent_is_not_found(g: BumperCars, id: u64, r: Result<Player, GameError>)
    requires
        !g.contains_id(id),
        match r {
            Ok(p) => g.contains_id(id) && p == g.entry(id),
            Err(e) => !g.contains_id(id) && e == GameError::NotFound(id),
        },
    ensures
        r == Result::<Player, GameError>::Err(GameError::NotFound(id)),
{
}

} // verus!
