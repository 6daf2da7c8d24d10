//! The world as a mathematical value, what each operation makes of it, and
//! what holds of the operations taken together.

use vstd::prelude::*;
use crate::color::Color;
use crate::input::InputPolicy;
use crate::input::KeyCode;
use crate::map::MapView;
use crate::map::lemma_drawn_on_reflexive;
use crate::map::lemma_drawn_on_transitive;
use crate::map::lemma_rotated_wf;
use crate::render::render_commands;
use crate::seq_filter::lemma_filter_agree;
use crate::seq_filter::lemma_filter_source;
use crate::seq_filter::lemma_filter_target;
use crate::terminal::CommandView;
use crate::terminal::UIView;
use crate::terminal::debug_command;

verus! {

/// An entity as a mathematical value: its id, its behavior, the components
/// attached to it by kind, and its tags. The behavior is absent while it is
/// being started or updated: it then works on the world from outside.
#[verifier::ext_equal]
pub struct EntityView<B, C> {
    pub id: i64,
    pub behavior: Option<B>,
    pub components: Map<u64, C>,
    pub tags: Seq<Seq<char>>,
}

impl<B, C> EntityView<B, C> {
    /// An entity that has just been added.
    pub open spec fn fresh(id: i64, behavior: Option<B>) -> EntityView<B, C> {
        EntityView { id, behavior, components: Map::empty(), tags: Seq::empty() }
    }
}

/// The world as a mathematical value.
#[verifier::ext_equal]
pub struct WorldView<B, C> {
    /// The grid of tiles.
    pub map: MapView,
    /// The live entities, in the order in which they are updated.
    pub entities: Seq<EntityView<B, C>>,
    /// The ids that wait to be removed, in the order in which removal was
    /// asked for.
    pub removal_queue: Seq<i64>,
    /// The id that the next new entity gets.
    pub next_id: i64,
    /// The latest-key slot and the queued terminal commands.
    pub ui: UIView,
    /// What happens to the current key at the end of a frame.
    pub input_policy: InputPolicy,
}

impl<B, C> WorldView<B, C> {
    /// The map is well-formed, ids are handed out in increasing order and
    /// never twice, and every live entity has an id that was handed out.
    pub open spec fn wf(self) -> bool {
        &&& self.map.wf()
        &&& 0 <= self.next_id
        &&& forall|i: int| 0 <= i < self.entities.len() ==> 0 <= (#[trigger] self.entities[i]).id < self.next_id
        &&& forall|i: int, j: int|
            0 <= i < j < self.entities.len() ==> (#[trigger] self.entities[i]).id < (
            #[trigger] self.entities[j]).id
    }

    /// Whether an entity with this id is in the store.
    pub open spec fn is_live(self, id: i64) -> bool {
        exists|i: int| 0 <= i < self.entities.len() && (#[trigger] self.entities[i]).id == id
    }

    /// Where the entity with this id stands in the store, if it is live.
    pub open spec fn position(self, id: i64) -> int {
        choose|i: int| 0 <= i < self.entities.len() && (#[trigger] self.entities[i]).id == id
    }

    /// The component of a kind that is attached to an entity, if the entity
    /// is live and has one.
    pub open spec fn component(self, id: i64, kind: u64) -> Option<C> {
        if self.is_live(id) && self.entities[self.position(id)].components.contains_key(kind) {
            Some(self.entities[self.position(id)].components[kind])
        } else {
            None
        }
    }

    /// The world before anything happened: a blank map, no entity, no key.
    pub open spec fn initial(width: nat, height: nat) -> WorldView<B, C> {
        WorldView {
            map: MapView::blank(width, height),
            entities: Seq::empty(),
            removal_queue: Seq::empty(),
            next_id: 0,
            ui: UIView::initial(),
            input_policy: InputPolicy::ClearEachFrame,
        }
    }

    /// The world with another policy for the current key.
    pub open spec fn with_policy(self, policy: InputPolicy) -> WorldView<B, C> {
        WorldView { input_policy: policy, ..self }
    }

    /// The world with one more entity: it gets the next id and stands last
    /// in the store, without components.
    pub open spec fn spawned(self, behavior: Option<B>) -> WorldView<B, C> {
        WorldView {
            entities: self.entities.push(EntityView::fresh(self.next_id, behavior)),
            next_id: (self.next_id + 1) as i64,
            ..self
        }
    }

    /// The world once removal of `id` was asked for: the id waits in the
    /// queue, and nothing else has changed.
    pub open spec fn with_removal(self, id: i64) -> WorldView<B, C> {
        WorldView { removal_queue: self.removal_queue.push(id), ..self }
    }

    /// The test that an entity passes if its id does not wait in the removal
    /// queue.
    pub open spec fn survives(self) -> spec_fn(EntityView<B, C>) -> bool {
        |e: EntityView<B, C>| !self.removal_queue.contains(e.id)
    }

    /// The world once the removal queue was worked off: the entities whose
    /// id waited in the queue are gone, the others stand in the order they
    /// had, and the queue is empty.
    pub open spec fn flushed(self) -> WorldView<B, C> {
        WorldView {
            entities: self.entities.filter(self.survives()),
            removal_queue: Seq::empty(),
            ..self
        }
    }

    /// The world once `id` has drawn on the map.
    pub open spec fn drawn(self, position: (u16, u16), glyph: char, color: Color, id: i64) -> WorldView<B, C> {
        WorldView { map: self.map.written(position, glyph, color, id), ..self }
    }

    /// The world once a component was attached to the entity `id`. An entity
    /// has at most one component of a kind: a new one takes the place of the
    /// old one. If no entity has the id, nothing changes.
    pub open spec fn with_component(self, id: i64, kind: u64, value: C) -> WorldView<B, C> {
        WorldView {
            entities: self.entities.map_values(
                |e: EntityView<B, C>|
                    if e.id == id {
                        EntityView { components: e.components.insert(kind, value), ..e }
                    } else {
                        e
                    },
            ),
            ..self
        }
    }

    /// The world once a tag was given to the entity `id`. If no entity has
    /// the id, nothing changes.
    pub open spec fn tagged(self, id: i64, tag: Seq<char>) -> WorldView<B, C> {
        WorldView {
            entities: self.entities.map_values(
                |e: EntityView<B, C>|
                    if e.id == id {
                        EntityView { tags: e.tags.push(tag), ..e }
                    } else {
                        e
                    },
            ),
            ..self
        }
    }

    /// The terminal row of a line of diagnostics: the lines stand below the
    /// map, and a line that a terminal coordinate cannot say stands on the
    /// last row that one can.
    pub open spec fn debug_row(self, line: u16) -> u16 {
        if self.map.height() + line <= u16::MAX {
            (self.map.height() + line) as u16
        } else {
            u16::MAX
        }
    }

    /// The world once a line of diagnostics was queued.
    pub open spec fn debug_drawn(self, line: u16, text: Seq<char>) -> WorldView<B, C> {
        WorldView { ui: self.ui.queue(seq![debug_command(self.debug_row(line), text)]), ..self }
    }

    /// The world once the input source was sampled.
    pub open spec fn input_sampled(self, polled: Option<KeyCode>) -> WorldView<B, C> {
        WorldView { ui: self.ui.sampled(polled), ..self }
    }

    /// The world once the current key was taken away.
    pub open spec fn input_cleared(self) -> WorldView<B, C> {
        WorldView { ui: self.ui.input_cleared(), ..self }
    }

    /// The world once the end of a frame has dealt with the current key as
    /// the policy says.
    pub open spec fn input_settled(self) -> WorldView<B, C> {
        if self.input_policy == InputPolicy::ClearEachFrame {
            self.input_cleared()
        } else {
            self
        }
    }

    /// The world once the map was put on the terminal: the glyphs of the
    /// occupied tiles are queued.
    pub open spec fn rendered(self) -> WorldView<B, C> {
        WorldView { ui: self.ui.queue(render_commands(self.map)), ..self }
    }

    /// The world once a frame was shown: the occupied tiles are queued, then
    /// a flush, and the map has passed the frame boundary.
    pub open spec fn presented(self) -> WorldView<B, C> {
        WorldView {
            ui: self.ui.queue(render_commands(self.map)).queue(seq![CommandView::Flush]),
            map: self.map.rotated(),
            ..self
        }
    }

    /// The world while the behavior of the entity at place `i` is away.
    pub open spec fn taken(self, i: int) -> WorldView<B, C> {
        WorldView {
            entities: self.entities.update(i, EntityView { behavior: None, ..self.entities[i] }),
            ..self
        }
    }

    /// The world once a behavior is back with the entity at place `i`.
    pub open spec fn restored(self, i: int, behavior: B) -> WorldView<B, C> {
        WorldView {
            entities: self.entities.update(i, EntityView { behavior: Some(behavior), ..self.entities[i] }),
            ..self
        }
    }

    /// What may have become of a world in the course of a frame's updates.
    /// The map was only drawn on, so queries answer as before. No entity
    /// left the store or changed its place; new ones stand behind the old
    /// ones and have ids that nobody had before. The removal queue and the
    /// queue of terminal commands have only grown at their ends. The current
    /// key is as it was or was cleared.
    pub open spec fn grown_to(self, later: WorldView<B, C>) -> bool {
        &&& self.map.drawn_on(later.map)
        &&& self.entities.len() <= later.entities.len()
        &&& forall|i: int|
            0 <= i < self.entities.len() ==> (#[trigger] later.entities[i]).id == self.entities[i].id
        &&& forall|i: int|
            self.entities.len() <= i < later.entities.len() ==> (#[trigger] later.entities[i]).id
                >= self.next_id
        &&& self.removal_queue.is_prefix_of(later.removal_queue)
        &&& self.next_id <= later.next_id
        &&& self.ui.used(later.ui)
        &&& later.input_policy == self.input_policy
    }

    /// What a behavior may have made of the world that it was handed: the
    /// world has grown, and the behaviors of the entities that were there
    /// are untouched.
    pub open spec fn progressed_to(self, later: WorldView<B, C>) -> bool {
        &&& self.grown_to(later)
        &&& forall|i: int|
            0 <= i < self.entities.len() ==> (#[trigger] later.entities[i]).behavior
                == self.entities[i].behavior
    }
}

/// A world that is left alone has grown and progressed.
pub proof fn lemma_progress_reflexive<B, C>(w: WorldView<B, C>)
    ensures
        w.grown_to(w),
        w.progressed_to(w),
{
    lemma_drawn_on_reflexive(w.map);
}

/// Progress after progress is progress.
pub proof fn lemma_progress_transitive<B, C>(a: WorldView<B, C>, b: WorldView<B, C>, c: WorldView<B, C>)
    requires
        a.progressed_to(b),
        b.progressed_to(c),
    ensures
        a.progressed_to(c),
{
    lemma_growth_transitive(a, b, c);
    assert forall|i: int| 0 <= i < a.entities.len() implies (#[trigger] c.entities[i]).behavior
        == a.entities[i].behavior by {
        assert(b.entities[i].behavior == a.entities[i].behavior);
    }
}

/// Growth after growth is growth.
pub proof fn lemma_growth_transitive<B, C>(a: WorldView<B, C>, b: WorldView<B, C>, c: WorldView<B, C>)
    requires
        a.grown_to(b),
        b.grown_to(c),
    ensures
        a.grown_to(c),
{
    lemma_drawn_on_transitive(a.map, b.map, c.map);
    assert forall|i: int| 0 <= i < a.entities.len() implies (#[trigger] c.entities[i]).id == a.entities[i].id by {
        assert(b.entities[i].id == a.entities[i].id);
    }
    assert forall|i: int| a.entities.len() <= i < c.entities.len() implies (#[trigger] c.entities[i]).id
        >= a.next_id by {
        if i < b.entities.len() {
            assert(b.entities[i].id >= a.next_id);
        }
    }
}

/// An id names one entity: in a well-formed world the entity at a place of
/// the store is live, and its id is found at that place and nowhere else.
pub proof fn lemma_position_unique<B, C>(w: WorldView<B, C>, i: int)
    requires
        w.wf(),
        0 <= i < w.entities.len(),
    ensures
        w.is_live(w.entities[i].id),
        w.position(w.entities[i].id) == i,
{
    let id = w.entities[i].id;
    let j = w.position(id);
    assert(0 <= j < w.entities.len() && w.entities[j].id == id);
    if j < i {
        assert(w.entities[j].id < w.entities[i].id);
    }
    if i < j {
        assert(w.entities[i].id < w.entities[j].id);
    }
}

/// The entities that a test picks from a store stand in the order they had:
/// where ids grow from place to place in the store, they do so among the
/// picked.
pub proof fn lemma_filter_keeps_order<B, C>(
    s: Seq<EntityView<B, C>>,
    keep: spec_fn(EntityView<B, C>) -> bool,
    a: int,
    b: int,
)
    requires
        forall|i: int, j: int| 0 <= i < j < s.len() ==> (#[trigger] s[i]).id < (#[trigger] s[j]).id,
        0 <= a < b < s.filter(keep).len(),
    ensures
        s.filter(keep)[a].id < s.filter(keep)[b].id,
    decreases s.len(),
{
    reveal(Seq::filter);
    let front = s.drop_last();
    let before = front.filter(keep);
    if b < before.len() {
        assert forall|i: int, j: int| 0 <= i < j < front.len() implies (#[trigger] front[i]).id < (
        #[trigger] front[j]).id by {
            assert(front[i] == s[i] && front[j] == s[j]);
        }
        lemma_filter_keeps_order(front, keep, a, b);
    } else {
        let i = lemma_filter_source(front, keep, a);
        assert(front[i] == s[i]);
        assert(s[i].id < s[s.len() - 1].id);
    }
}

/// Working off the removal queue keeps a world well-formed.
pub proof fn lemma_flushed_wf<B, C>(w: WorldView<B, C>)
    requires
        w.wf(),
    ensures
        w.flushed().wf(),
        w.flushed().entities.len() <= w.entities.len(),
{
    let keep = w.survives();
    let left = w.entities.filter(keep);
    w.entities.lemma_filter_len(keep);
    assert forall|k: int| 0 <= k < left.len() implies 0 <= (#[trigger] left[k]).id < w.next_id by {
        let i = lemma_filter_source(w.entities, keep, k);
        assert(0 <= w.entities[i].id < w.next_id);
    }
    assert forall|a: int, b: int| 0 <= a < b < left.len() implies (#[trigger] left[a]).id < (
    #[trigger] left[b]).id by {
        lemma_filter_keeps_order(w.entities, keep, a, b);
    }
}

/// Who is left once the removal queue was worked off: an entity is live
/// afterwards exactly if it was live before and its id did not wait in the
/// queue.
pub proof fn lemma_flushed_live<B, C>(w: WorldView<B, C>, id: i64)
    ensures
        w.flushed().is_live(id) == (w.is_live(id) && !w.removal_queue.contains(id)),
{
    let keep = w.survives();
    let left = w.entities.filter(keep);
    if w.flushed().is_live(id) {
        let k = choose|k: int| 0 <= k < left.len() && (#[trigger] left[k]).id == id;
        let i = lemma_filter_source(w.entities, keep, k);
        assert(w.entities[i].id == id);
    }
    if w.is_live(id) && !w.removal_queue.contains(id) {
        let i = choose|i: int| 0 <= i < w.entities.len() && (#[trigger] w.entities[i]).id == id;
        let k = lemma_filter_target(w.entities, keep, i);
        assert(left[k].id == id);
    }
}

/// Queries are a frame behind. While the entities of a frame are updated,
/// a query at any position answers what it answered when the frame began,
/// whatever was drawn in the meantime. Once the frame was shown, a query
/// answers with the ids that drew on the tile in that frame, in the order
/// in which they drew: what was already drawn when the world was `w`,
/// followed by what was drawn after.
pub proof fn lemma_queries_are_a_frame_behind<B, C>(w: WorldView<B, C>, later: WorldView<B, C>, p: (u16, u16))
    requires
        w.wf(),
        later.wf(),
        w.grown_to(later),
    ensures
        later.map.occupants(p) == w.map.occupants(p),
        later.presented().map.occupants(p) == later.map.tile(
            later.map.clamp_col(p),
            later.map.clamp_row(p),
        ).current,
        w.map.tile(w.map.clamp_col(p), w.map.clamp_row(p)).current.is_prefix_of(
            later.presented().map.occupants(p),
        ),
        later.presented().map.fresh(),
{
    let c = w.map.clamp_col(p);
    let r = w.map.clamp_row(p);
    assert(w.map.in_bounds(c, r));
    assert(later.map.tile(c, r).previous == w.map.tile(c, r).previous);
    lemma_rotated_wf(later.map);
    assert(later.presented().map.tile(c, r) == later.map.tile(c, r).rotated());
}

/// Removal is deferred. When an entity asks for the removal of `id`,
/// nothing but the removal queue changes: the entity is still in the store
/// and what was drawn is still on the map. Whatever the rest of the frame's
/// updates make of the world, the entity stays in the store and the drawing
/// stays on the map until the frame was shown. When the next frame works
/// off the queue, the entity is gone before any entity has its turn.
pub proof fn lemma_removal_is_deferred<B, C>(w: WorldView<B, C>, id: i64, later: WorldView<B, C>)
    requires
        w.with_removal(id).grown_to(later),
    ensures
        w.with_removal(id).entities == w.entities,
        w.with_removal(id).map == w.map,
        w.is_live(id) ==> later.is_live(id),
        w.map.drawn_on(later.map),
        later.removal_queue.contains(id),
        !later.flushed().is_live(id),
{
    let asked = w.with_removal(id);
    if w.is_live(id) {
        let i = choose|i: int| 0 <= i < w.entities.len() && (#[trigger] w.entities[i]).id == id;
        assert(later.entities[i].id == id);
    }
    assert(asked.removal_queue[asked.removal_queue.len() - 1] == id);
    assert(later.removal_queue[asked.removal_queue.len() - 1] == id);
    lemma_flushed_live(later, id);
}

/// An id is not handed out twice: an entity that has left the store does
/// not come back, whatever is added to the world later, and so has no
/// further turn in any update pass.
pub proof fn lemma_removed_stays_gone<B, C>(w: WorldView<B, C>, id: i64, later: WorldView<B, C>)
    requires
        id < w.next_id,
        !w.is_live(id),
        w.grown_to(later) || later == w.flushed(),
    ensures
        !later.is_live(id),
        id < later.next_id,
{
    if later == w.flushed() {
        lemma_flushed_live(w, id);
    } else {
        if later.is_live(id) {
            let i = choose|i: int| 0 <= i < later.entities.len() && (#[trigger] later.entities[i]).id == id;
            if i < w.entities.len() {
                assert(w.entities[i].id == id);
            }
        }
    }
}

/// Removal is idempotent. To ask twice for the removal of an id is the same
/// as to ask once, and to ask for the removal of an id that no entity has
/// is the same as not to ask: once the queue is worked off, the worlds are
/// equal.
pub proof fn lemma_removal_is_idempotent<B, C>(w: WorldView<B, C>, id: i64)
    ensures
        w.with_removal(id).with_removal(id).flushed() == w.with_removal(id).flushed(),
        !w.is_live(id) ==> w.with_removal(id).flushed() == w.flushed(),
{
    let once = w.with_removal(id);
    let twice = once.with_removal(id);
    let keep_none = w.survives();
    let keep_once = once.survives();
    let keep_twice = twice.survives();
    assert forall|x: i64| once.removal_queue.contains(x) == (w.removal_queue.contains(x) || x == id) by {
        if w.removal_queue.contains(x) {
            let k = choose|k: int| 0 <= k < w.removal_queue.len() && w.removal_queue[k] == x;
            assert(once.removal_queue[k] == x);
        }
        assert(once.removal_queue[once.removal_queue.len() - 1] == id);
    }
    assert forall|x: i64| twice.removal_queue.contains(x) == once.removal_queue.contains(x) by {
        if once.removal_queue.contains(x) {
            let k = choose|k: int| 0 <= k < once.removal_queue.len() && once.removal_queue[k] == x;
            assert(twice.removal_queue[k] == x);
        }
    }
    lemma_filter_agree(w.entities, keep_twice, keep_once);
    assert(twice.flushed() =~~= once.flushed());
    if !w.is_live(id) {
        assert forall|i: int| 0 <= i < w.entities.len() implies keep_once(#[trigger] w.entities[i])
            == keep_none(w.entities[i]) by {
            assert(w.entities[i].id != id);
        }
        lemma_filter_agree(w.entities, keep_once, keep_none);
        assert(once.flushed() =~~= w.flushed());
    }
}

/// To attach a component changes no id and no place in the store.
pub proof fn lemma_with_component_wf<B, C>(w: WorldView<B, C>, id: i64, kind: u64, value: C)
    requires
        w.wf(),
    ensures
        w.with_component(id, kind, value).wf(),
        w.progressed_to(w.with_component(id, kind, value)),
        forall|other: i64| #[trigger]
            w.with_component(id, kind, value).is_live(other) == w.is_live(other),
        forall|other: i64|
            w.is_live(other) ==> #[trigger] w.with_component(id, kind, value).position(other) == w.position(
                other,
            ),
{
    let after = w.with_component(id, kind, value);
    lemma_drawn_on_reflexive(w.map);
    assert forall|i: int| 0 <= i < after.entities.len() implies (#[trigger] after.entities[i]).id
        == w.entities[i].id by {}
    assert forall|other: i64| #[trigger] after.is_live(other) == w.is_live(other) by {
        if after.is_live(other) {
            let i = choose|i: int| 0 <= i < after.entities.len() && (#[trigger] after.entities[i]).id == other;
            assert(w.entities[i].id == other);
        }
        if w.is_live(other) {
            let i = choose|i: int| 0 <= i < w.entities.len() && (#[trigger] w.entities[i]).id == other;
            assert(after.entities[i].id == other);
        }
    }
    assert forall|other: i64| w.is_live(other) implies #[trigger] after.position(other) == w.position(
        other,
    ) by {
        let i = w.position(other);
        assert(0 <= i < w.entities.len() && w.entities[i].id == other);
        assert(after.entities[i].id == other);
        lemma_position_unique(after, i);
    }
}

/// A component comes back as it was attached. Once `value` was attached to a
/// live entity under `kind`, a lookup of that kind on that entity gives
/// `value`. On an id that no entity has, attaching changes nothing and the
/// lookup gives nothing. Lookups of other kinds and on other entities give
/// what they gave before.
pub proof fn lemma_component_round_trip<B, C>(w: WorldView<B, C>, id: i64, kind: u64, value: C)
    requires
        w.wf(),
    ensures
        w.is_live(id) ==> w.with_component(id, kind, value).component(id, kind) == Some(value),
        !w.is_live(id) ==> w.with_component(id, kind, value) == w && w.component(id, kind) is None,
        forall|other: i64, k: u64|
            other != id || k != kind ==> #[trigger] w.with_component(id, kind, value).component(other, k)
                == w.component(other, k),
{
    let after = w.with_component(id, kind, value);
    lemma_with_component_wf(w, id, kind, value);
    if w.is_live(id) {
        let i = w.position(id);
        assert(0 <= i < w.entities.len() && w.entities[i].id == id);
        assert(after.position(id) == i);
        assert(after.entities[i].components == w.entities[i].components.insert(kind, value));
    } else {
        assert(after.entities =~~= w.entities);
        assert(after =~~= w);
    }
    assert forall|other: i64, k: u64| other != id || k != kind implies #[trigger] after.component(other, k)
        == w.component(other, k) by {
        if w.is_live(other) {
            let i = w.position(other);
            assert(0 <= i < w.entities.len() && w.entities[i].id == other);
            assert(after.position(other) == i);
            if other == id {
                assert(after.entities[i].components == w.entities[i].components.insert(kind, value));
            } else {
                assert(after.entities[i] == w.entities[i]);
            }
        }
    }
}

/// A lookup gives nothing where nothing was attached: on an id that no
/// entity has, and on an entity that has just been added.
pub proof fn lemma_component_absent<B, C>(w: WorldView<B, C>, id: i64, kind: u64, behavior: Option<B>)
    requires
        w.wf(),
        w.next_id < i64::MAX,
    ensures
        !w.is_live(id) ==> w.component(id, kind) is None,
        w.spawned(behavior).wf(),
        w.spawned(behavior).is_live(w.next_id),
        w.spawned(behavior).component(w.next_id, kind) is None,
{
    let born = w.spawned(behavior);
    let last = w.entities.len() as int;
    assert(born.entities[last].id == w.next_id);
    assert forall|i: int, j: int| 0 <= i < j < born.entities.len() implies (#[trigger] born.entities[i]).id < (
    #[trigger] born.entities[j]).id by {
        if j == last {
            assert(born.entities[i] == w.entities[i]);
        } else {
            assert(born.entities[i] == w.entities[i] && born.entities[j] == w.entities[j]);
        }
    }
    assert forall|i: int| 0 <= i < born.entities.len() implies 0 <= (#[trigger] born.entities[i]).id
        < born.next_id by {
        if i < last {
            assert(born.entities[i] == w.entities[i]);
        }
    }
    lemma_position_unique(born, last);
}

} // verus!
