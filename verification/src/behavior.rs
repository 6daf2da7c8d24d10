//! What an entity does, and what an update pass makes of a world: every
//! entity has its turn, one after the other.

use vstd::prelude::*;
use crate::map::lemma_rotated_wf;
use crate::world::World;
use crate::world_view::WorldView;
use crate::world_view::lemma_flushed_live;
use crate::world_view::lemma_flushed_wf;
use crate::world_view::lemma_growth_transitive;
use crate::world_view::lemma_progress_reflexive;
use crate::world_view::lemma_removed_stays_gone;

verus! {

/// What an entity does. The world calls `update` once per frame for every
/// live entity, and `start` once for an entity that is added with
/// [`World::add_entity_with_start`]. While one of the two runs, the
/// behavior is away from its entity and works on the world through the
/// functions whose contracts say that the world has progressed: it may draw,
/// query the map, add and remove entities, attach and read components and
/// tags, queue diagnostics, and read and clear the current key. The frame
/// itself is not the behavior's to run.
pub trait Update<C>: Sized {
    /// What a call of `update` makes of the behavior and of the world that
    /// it is handed. A behavior that says nothing here may do anything that
    /// the contract of `update` allows.
    open spec fn updated(
        before: Self,
        after: Self,
        delta: u64,
        id: i64,
        world: WorldView<Self, C>,
        left: WorldView<Self, C>,
    ) -> bool {
        true
    }

    /// Called once, right after the entity was added, with the id that it
    /// got. A behavior that has nothing to prepare leaves this as it is:
    /// the start that comes with the trait changes neither the behavior nor
    /// the world.
    fn start(&mut self, world: &mut World<Self, C>, id: i64)
        requires
            old(world).wf(),
            old(world)@.is_live(id),
        ensures
            final(world).wf(),
            old(world)@.progressed_to(final(world)@),
        default_ensures
            *final(self) == *old(self),
            *final(world) == *old(world),
    {
        proof {
            lemma_progress_reflexive(world@);
        }
    }

    /// Called once per frame with the time since the last frame, in
    /// microseconds, and the entity's own id.
    fn update(&mut self, delta: u64, world: &mut World<Self, C>, id: i64)
        requires
            old(world).wf(),
            old(world)@.is_live(id),
        ensures
            final(world).wf(),
            old(world)@.progressed_to(final(world)@),
            Self::updated(*old(self), *final(self), delta, id, old(world)@, final(world)@),
    ;
}

impl<B: Update<C>, C> WorldView<B, C> {
    /// The world once an entity was added and started: the entity stands
    /// last in the store with the next id, its behavior was handed the world
    /// and made of it what `start` may, and is back with its entity.
    pub open spec fn started(self, next: WorldView<B, C>) -> bool {
        exists|after: B, left: WorldView<B, C>|
            {
                &&& left.wf()
                &&& self.spawned(None).progressed_to(left)
                &&& next == #[trigger] left.restored(self.entities.len() as int, after)
            }
    }

    /// The turn of the entity at place `i` in an update pass. Its behavior
    /// is taken from it and handed the world with `delta` and the entity's
    /// own id, makes of both what `update` may, and is given back to the
    /// entity. An entity whose behavior is away has no turn.
    pub open spec fn turn(self, i: int, delta: u64, next: WorldView<B, C>) -> bool {
        match self.entities[i].behavior {
            None => next == self,
            Some(before) => exists|after: B, left: WorldView<B, C>|
                {
                    &&& left.wf()
                    &&& self.taken(i).progressed_to(left)
                    &&& B::updated(before, after, delta, self.entities[i].id, self.taken(i), left)
                    &&& next == #[trigger] left.restored(i, after)
                },
        }
    }

    /// The world once the entities at the first `n` places have had their
    /// turns, one after the other from the first place on, each on the world
    /// that the turn before it left.
    pub open spec fn passed(self, n: nat, delta: u64, end: WorldView<B, C>) -> bool
        decreases n,
    {
        if n == 0 {
            end == self
        } else {
            exists|mid: WorldView<B, C>|
                self.passed((n - 1) as nat, delta, mid) && #[trigger] mid.turn(n - 1, delta, end)
        }
    }

    /// The world once a frame's work on the entities was done: the removal
    /// queue was worked off, every entity that was left had its turn, and
    /// the frame was shown.
    pub open spec fn stepped(self, delta: u64, end: WorldView<B, C>) -> bool {
        exists|updated: WorldView<B, C>|
            {
                &&& updated.wf()
                &&& #[trigger] self.flushed().passed(self.flushed().entities.len(), delta, updated)
                &&& end == updated.presented()
            }
    }
}

/// A turn lets the world grow and keeps it well-formed.
pub proof fn lemma_turn_grows<B: Update<C>, C>(w: WorldView<B, C>, i: int, delta: u64, next: WorldView<B, C>)
    requires
        w.wf(),
        0 <= i < w.entities.len(),
        w.turn(i, delta, next),
    ensures
        next.wf(),
        w.grown_to(next),
{
    lemma_progress_reflexive(w);
    match w.entities[i].behavior {
        None => {},
        Some(before) => {
            let (after, left) = choose|after: B, left: WorldView<B, C>|
                {
                    &&& left.wf()
                    &&& w.taken(i).progressed_to(left)
                    &&& B::updated(before, after, delta, w.entities[i].id, w.taken(i), left)
                    &&& next == #[trigger] left.restored(i, after)
                };
            assert(w.taken(i).entities.len() == w.entities.len());
            assert forall|k: int| 0 <= k < next.entities.len() implies 0 <= (#[trigger] next.entities[k]).id
                < next.next_id by {
                assert(0 <= left.entities[k].id < left.next_id);
            }
            assert forall|k: int, j: int| 0 <= k < j < next.entities.len() implies (#[trigger] next.entities[k]).id
                < (#[trigger] next.entities[j]).id by {
                assert(left.entities[k].id < left.entities[j].id);
            }
            assert forall|k: int| 0 <= k < w.entities.len() implies (#[trigger] next.entities[k]).id
                == w.entities[k].id by {
                assert(left.entities[k].id == w.taken(i).entities[k].id);
            }
            assert forall|k: int| w.entities.len() <= k < next.entities.len() implies (
            #[trigger] next.entities[k]).id >= w.next_id by {
                assert(left.entities[k].id >= w.taken(i).next_id);
            }
        },
    }
}

/// An update pass lets the world grow and keeps it well-formed: the map
/// was only drawn on, so that queries answer as before the pass, no entity
/// has left the store, and the entities that were added stand behind the
/// ones that were there.
pub proof fn lemma_pass_grows<B: Update<C>, C>(w: WorldView<B, C>, n: nat, delta: u64, end: WorldView<B, C>)
    requires
        w.wf(),
        n <= w.entities.len(),
        w.passed(n, delta, end),
    ensures
        end.wf(),
        w.grown_to(end),
    decreases n,
{
    if n == 0 {
        lemma_progress_reflexive(w);
    } else {
        let mid = choose|mid: WorldView<B, C>|
            w.passed((n - 1) as nat, delta, mid) && #[trigger] mid.turn(n - 1, delta, end);
        lemma_pass_grows(w, (n - 1) as nat, delta, mid);
        lemma_turn_grows(mid, n - 1, delta, end);
        lemma_growth_transitive(w, mid, end);
    }
}

/// An entity whose removal was asked for has no turn in the next frame.
/// When a frame starts with the id of an entity in the removal queue, the
/// entity is out of the store before the first turn, no turn brings it back,
/// and it is not in the store when the frame was shown.
pub proof fn lemma_removed_has_no_turn<B: Update<C>, C>(
    w: WorldView<B, C>,
    id: i64,
    delta: u64,
    end: WorldView<B, C>,
)
    requires
        w.wf(),
        id < w.next_id,
        w.removal_queue.contains(id),
        w.stepped(delta, end),
    ensures
        !w.flushed().is_live(id),
        !end.is_live(id),
        end.wf(),
{
    let updated = choose|updated: WorldView<B, C>|
        {
            &&& updated.wf()
            &&& #[trigger] w.flushed().passed(w.flushed().entities.len(), delta, updated)
            &&& end == updated.presented()
        };
    lemma_flushed_wf(w);
    lemma_flushed_live(w, id);
    lemma_pass_grows(w.flushed(), w.flushed().entities.len(), delta, updated);
    lemma_removed_stays_gone(w.flushed(), id, updated);
    lemma_rotated_wf(updated.map);
    assert(end.entities == updated.entities);
}

} // verus!
