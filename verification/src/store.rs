//! The entity store: the live cannon, aliens and projectiles, with spawn,
//! iterate and remove. Removal is idempotent: despawning an id that is no
//! longer present is a no-op, never an error.

use vstd::prelude::*;
use crate::entities::{Alien, AlienKind, Cannon, Projectile, ProjectileKind};

verus! {

broadcast use vstd::seq_lib::group_filter_ensures;

/// Holds every live entity of the simulation.
pub struct Store {
    /// The id the next spawned entity receives.
    pub next_id: u64,
    /// The singleton player entity, absent only between mission transitions.
    pub cannon: Option<Cannon>,
    /// Live formation members, in spawn order.
    pub aliens: Vec<Alien>,
    /// Live projectiles, in spawn order.
    pub projectiles: Vec<Projectile>,
}

/// The id counter after one spawn; it stops advancing at the top of its range
/// rather than wrapping.
pub open spec fn next_id_after(id: u64) -> u64 {
    if id == u64::MAX {
        u64::MAX
    } else {
        (id + 1) as u64
    }
}

/// The aliens that survive despawning `id`.
pub open spec fn keep_alien(id: u64) -> spec_fn(Alien) -> bool {
    |a: Alien| a.id != id
}

/// The projectiles that survive despawning `id`.
pub open spec fn keep_projectile(id: u64) -> spec_fn(Projectile) -> bool {
    |p: Projectile| p.id != id
}

/// The aliens of `v` whose id is not `id`, in order.
fn remove_alien_with_id(v: &Vec<Alien>, id: u64) -> (out: Vec<Alien>)
    ensures
        out@ == v@.filter(keep_alien(id)),
{
    let mut out: Vec<Alien> = Vec::new();
    let n = v.len();
    let mut i: usize = 0;
    while i < n
        invariant
            n == v@.len(),
            i <= n,
            out@ == v@.take(i as int).filter(keep_alien(id)),
        decreases n - i,
    {
        let a = v[i];
        proof {
            reveal_with_fuel(Seq::filter, 2);
            assert(v@.take(i as int + 1) =~= v@.take(i as int) + seq![v@[i as int]]);
            Seq::filter_distributes_over_add(v@.take(i as int), seq![v@[i as int]], keep_alien(id));
            assert(seq![a].drop_last() =~= Seq::<Alien>::empty());
        }
        if a.id != id {
            out.push(a);
        }
        i += 1;
    }
    proof {
        assert(v@.take(n as int) =~= v@);
    }
    out
}

/// The projectiles of `v` whose id is not `id`, in order.
fn remove_projectile_with_id(v: &Vec<Projectile>, id: u64) -> (out: Vec<Projectile>)
    ensures
        out@ == v@.filter(keep_projectile(id)),
{
    let mut out: Vec<Projectile> = Vec::new();
    let n = v.len();
    let mut i: usize = 0;
    while i < n
        invariant
            n == v@.len(),
            i <= n,
            out@ == v@.take(i as int).filter(keep_projectile(id)),
        decreases n - i,
    {
        let p = v[i];
        proof {
            reveal_with_fuel(Seq::filter, 2);
            assert(v@.take(i as int + 1) =~= v@.take(i as int) + seq![v@[i as int]]);
            Seq::filter_distributes_over_add(
                v@.take(i as int),
                seq![v@[i as int]],
                keep_projectile(id),
            );
            assert(seq![p].drop_last() =~= Seq::<Projectile>::empty());
        }
        if p.id != id {
            out.push(p);
        }
        i += 1;
    }
    proof {
        assert(v@.take(n as int) =~= v@);
    }
    out
}

impl Store {
    /// An empty store: no cannon, no aliens, no projectiles.
    pub fn new() -> (s: Store)
        ensures
            s.next_id == 0,
            s.cannon is None,
            s.aliens@ =~= Seq::<Alien>::empty(),
            s.projectiles@ =~= Seq::<Projectile>::empty(),
    {
        Store { next_id: 0, cannon: None, aliens: Vec::new(), projectiles: Vec::new() }
    }

    /// Spawns one alien of the given kind at the given position and returns
    /// its id.
    pub fn spawn_alien(&mut self, kind: AlienKind, x: i32, y: i32) -> (id: u64)
        ensures
            id == old(self).next_id,
            final(self).next_id == next_id_after(old(self).next_id),
            final(self).aliens@ == old(self).aliens@.push(
                Alien { id: old(self).next_id, kind, x, y },
            ),
            final(self).projectiles == old(self).projectiles,
            final(self).cannon == old(self).cannon,
    {
        let id = self.next_id;
        self.aliens.push(Alien { id, kind, x, y });
        self.next_id = if self.next_id == u64::MAX {
            u64::MAX
        } else {
            self.next_id + 1
        };
        id
    }

    /// Spawns one projectile of the given kind at the given position and
    /// returns its id.
    pub fn spawn_projectile(&mut self, kind: ProjectileKind, x: i32, y: i32) -> (id: u64)
        ensures
            id == old(self).next_id,
            final(self).next_id == next_id_after(old(self).next_id),
            final(self).projectiles@ == old(self).projectiles@.push(
                Projectile { id: old(self).next_id, kind, x, y },
            ),
            final(self).aliens == old(self).aliens,
            final(self).cannon == old(self).cannon,
    {
        let id = self.next_id;
        self.projectiles.push(Projectile { id, kind, x, y });
        self.next_id = if self.next_id == u64::MAX {
            u64::MAX
        } else {
            self.next_id + 1
        };
        id
    }

    /// Places the singleton cannon, replacing any previous one.
    pub fn place_cannon(&mut self, cannon: Cannon)
        ensures
            final(self).cannon == Some(cannon),
            final(self).aliens == old(self).aliens,
            final(self).projectiles == old(self).projectiles,
            final(self).next_id == old(self).next_id,
    {
        self.cannon = Some(cannon);
    }

    /// Removes every alien and projectile carrying the given id. Removing an
    /// id that is not present changes nothing.
    pub fn despawn(&mut self, id: u64)
        ensures
            final(self).aliens@ == old(self).aliens@.filter(keep_alien(id)),
            final(self).projectiles@ == old(self).projectiles@.filter(keep_projectile(id)),
            final(self).cannon == old(self).cannon,
            final(self).next_id == old(self).next_id,
    {
        self.aliens = remove_alien_with_id(&self.aliens, id);
        self.projectiles = remove_projectile_with_id(&self.projectiles, id);
    }

    /// Removes every entity, the cannon included; a mission transition uses
    /// this so that no stale entity survives into the next wave.
    pub fn despawn_all(&mut self)
        ensures
            final(self).cannon is None,
            final(self).aliens@ =~= Seq::<Alien>::empty(),
            final(self).projectiles@ =~= Seq::<Projectile>::empty(),
            final(self).next_id == old(self).next_id,
    {
        self.cannon = None;
        self.aliens.clear();
        self.projectiles.clear();
    }

    /// The live aliens, in spawn order.
    pub fn all_aliens(&self) -> (r: &Vec<Alien>)
        ensures
            r == &self.aliens,
    {
        &self.aliens
    }

    /// The live projectiles, in spawn order.
    pub fn all_projectiles(&self) -> (r: &Vec<Projectile>)
        ensures
            r == &self.projectiles,
    {
        &self.projectiles
    }

    /// The singleton cannon, or `None` between mission transitions.
    pub fn cannon(&self) -> (r: &Option<Cannon>)
        ensures
            r == &self.cannon,
    {
        &self.cannon
    }
}

/// A sequence already filtered by a predicate is unchanged by filtering
/// again: despawning an id a second time is a no-op.
pub proof fn lemma_filter_idempotent<A>(s: Seq<A>, pred: spec_fn(A) -> bool)
    ensures
        s.filter(pred).filter(pred) == s.filter(pred),
    decreases s.len(),
{
    reveal_with_fuel(Seq::filter, 2);
    if s.len() == 0 {
        assert(s =~= Seq::<A>::empty());
    } else {
        lemma_filter_idempotent(s.drop_last(), pred);
        if pred(s.last()) {
            assert(s.filter(pred) == s.drop_last().filter(pred).push(s.last()));
            assert(s.filter(pred).drop_last() =~= s.drop_last().filter(pred));
            assert(s.filter(pred).last() == s.last());
        }
    }
}

/// Despawning the same id twice leaves exactly what despawning it once
/// leaves, for the aliens and the projectiles alike.
pub proof fn lemma_despawn_idempotent(aliens: Seq<Alien>, projectiles: Seq<Projectile>, id: u64)
    ensures
        aliens.filter(keep_alien(id)).filter(keep_alien(id)) == aliens.filter(keep_alien(id)),
        projectiles.filter(keep_projectile(id)).filter(keep_projectile(id)) == projectiles.filter(
            keep_projectile(id),
        ),
{
    lemma_filter_idempotent(aliens, keep_alien(id));
    lemma_filter_idempotent(projectiles, keep_projectile(id));
}

} // verus!
