//! The world: the map, the store of entities, the queue of entities that
//! asked to be removed, and the terminal interface. Behaviors get a mutable
//! handle to it on every update and use it to draw, to query the map, to
//! add and remove entities and to attach components.

use vstd::prelude::*;
use std::collections::HashMap;
use crate::behavior::Update;
use crate::behavior::lemma_turn_grows;
use crate::color::Color;
use crate::input::InputPolicy;
use crate::input::KeyCode;
use crate::input::is_quit;
use crate::input::spec_is_quit;
use crate::map::TileMap;
use crate::map::lemma_drawn_on_reflexive;
use crate::map::lemma_rotated_wf;
use crate::map::lemma_write_stays_in_bounds;
use crate::render::column_commands;
use crate::render::columns_commands;
use crate::render::lemma_column_step;
use crate::render::lemma_columns_step;
use crate::terminal::TerminalCommand;
use crate::terminal::UIView;
use crate::terminal::UI;
use crate::text::strip_spaces;
use crate::text::without_spaces;
use crate::world_view::EntityView;
use crate::world_view::WorldView;
use crate::world_view::lemma_growth_transitive;
use crate::world_view::lemma_position_unique;

verus! {

broadcast use vstd::std_specs::hash::group_hash_axioms;

/// An entity of the store: a behavior with its id, its components and its
/// tags.
pub struct EntityData<B, C> {
    behavior: Option<B>,
    id: i64,
    components: HashMap<u64, C>,
    tags: Vec<String>,
}

impl<B, C> View for EntityData<B, C> {
    type V = EntityView<B, C>;

    closed spec fn view(&self) -> EntityView<B, C> {
        EntityView {
            id: self.id,
            behavior: self.behavior,
            components: self.components@,
            tags: self.tags@.map_values(|t: String| t@),
        }
    }
}

impl<B, C> EntityData<B, C> {
    /// The id of the entity.
    pub fn id(&self) -> (id: i64)
        ensures
            id == self@.id,
    {
        self.id
    }

    /// The behavior of the entity. It is away while it is being started or
    /// updated.
    pub fn behavior(&self) -> (behavior: Option<&B>)
        ensures
            match behavior {
                Some(b) => self@.behavior == Some(*b),
                None => self@.behavior is None,
            },
    {
        self.behavior.as_ref()
    }

    /// The component of a kind, if the entity has one.
    pub fn component(&self, kind: u64) -> (found: Option<&C>)
        ensures
            match found {
                Some(c) => self@.components.contains_key(kind) && *c == self@.components[kind],
                None => !self@.components.contains_key(kind),
            },
    {
        self.components.get(&kind)
    }

    /// The number of tags of the entity.
    pub fn tag_count(&self) -> (n: usize)
        ensures
            n == self@.tags.len(),
    {
        self.tags.len()
    }

    /// The tag at an index.
    pub fn tag(&self, i: usize) -> (t: &String)
        requires
            i < self@.tags.len(),
        ensures
            t@ == self@.tags[i as int],
    {
        &self.tags[i]
    }
}

/// The world.
pub struct World<B, C> {
    entities: Vec<EntityData<B, C>>,
    removal_queue: Vec<i64>,
    map: TileMap,
    ui: UI,
    next_id: i64,
    input_policy: InputPolicy,
}

impl<B, C> View for World<B, C> {
    type V = WorldView<B, C>;

    closed spec fn view(&self) -> WorldView<B, C> {
        WorldView {
            map: self.map@,
            entities: self.entities@.map_values(|e: EntityData<B, C>| e@),
            removal_queue: self.removal_queue@,
            next_id: self.next_id,
            ui: self.ui@,
            input_policy: self.input_policy,
        }
    }
}

impl<B, C> World<B, C> {
    /// The map's stored sizes agree with its tiles.
    pub closed spec fn consistent(&self) -> bool {
        self.map.consistent()
    }

    /// The world is well-formed.
    pub open spec fn wf(&self) -> bool {
        self.consistent() && self@.wf()
    }

    /// A world with a blank map of `map_width` columns and `map_height`
    /// rows and no entity. The current key is cleared at the end of every
    /// frame.
    pub fn new(map_width: usize, map_height: usize) -> (world: Self)
        requires
            1 <= map_width <= u16::MAX,
            1 <= map_height <= u16::MAX,
        ensures
            world.wf(),
            world@ == WorldView::<B, C>::initial(map_width as nat, map_height as nat),
    {
        let world = World {
            entities: Vec::new(),
            map: TileMap::new(map_width, map_height),
            ui: UI::new(),
            next_id: 0,
            removal_queue: Vec::new(),
            input_policy: InputPolicy::ClearEachFrame,
        };
        assert(world@ =~~= WorldView::<B, C>::initial(map_width as nat, map_height as nat));
        world
    }

    /// Chooses what happens to the current key at the end of a frame.
    pub fn set_input_policy(&mut self, policy: InputPolicy)
        ensures
            final(self)@ == old(self)@.with_policy(policy),
            old(self).wf() ==> final(self).wf(),
    {
        self.input_policy = policy;
    }

    /// What happens to the current key at the end of a frame.
    pub fn input_policy(&self) -> (policy: InputPolicy)
        ensures
            policy == self@.input_policy,
    {
        self.input_policy
    }

    /// The id that the next new entity gets.
    pub fn next_id(&self) -> (id: i64)
        ensures
            id == self@.next_id,
    {
        self.next_id
    }

    /// The number of columns of the map.
    pub fn map_width(&self) -> (w: usize)
        requires
            self.wf(),
        ensures
            w == self@.map.width(),
    {
        self.map.width()
    }

    /// The number of rows of the map.
    pub fn map_height(&self) -> (h: usize)
        requires
            self.wf(),
        ensures
            h == self@.map.height(),
    {
        self.map.height()
    }

    /// The map, to look at.
    pub fn map(&self) -> (m: &TileMap)
        ensures
            m@ == self@.map,
            self.wf() ==> m.wf(),
    {
        &self.map
    }

    /// The live entities in store order, to look at.
    pub fn entities(&self) -> (live: &Vec<EntityData<B, C>>)
        ensures
            live@.map_values(|e: EntityData<B, C>| e@) == self@.entities,
    {
        &self.entities
    }

    /// The number of live entities.
    pub fn entity_count(&self) -> (n: usize)
        ensures
            n == self@.entities.len(),
    {
        self.entities.len()
    }

    /// The ids that wait to be removed.
    pub fn removal_queue(&self) -> (queue: &Vec<i64>)
        ensures
            queue@ == self@.removal_queue,
    {
        &self.removal_queue
    }

    /// The key that behaviors see in this frame, if there is one.
    pub fn current_input(&self) -> (key: Option<KeyCode>)
        ensures
            key == self@.ui.current_input,
    {
        self.ui.current_input()
    }

    /// The last key that ever arrived.
    pub fn last_input(&self) -> (key: Option<KeyCode>)
        ensures
            key == self@.ui.last_input,
    {
        self.ui.last_input()
    }

    /// The terminal interface, to look at.
    pub fn ui(&self) -> (ui: &UI)
        ensures
            ui@ == self@.ui,
    {
        &self.ui
    }

    /// Takes the current key away, so that no behavior sees it again.
    pub fn clear_input(&mut self)
        requires
            old(self).wf(),
        ensures
            final(self).wf(),
            final(self)@ == old(self)@.input_cleared(),
            old(self)@.progressed_to(final(self)@),
    {
        self.ui.clear_input();
        proof {
            lemma_drawn_on_reflexive(old(self)@.map);
        }
    }

    /// Adds an entity: it gets the next id and stands last in the store.
    /// Its first update comes with the next update pass that starts.
    pub fn add_entity(&mut self, behavior: B)
        requires
            old(self).wf(),
            old(self)@.next_id < i64::MAX,
        ensures
            final(self).wf(),
            final(self)@ == old(self)@.spawned(Some(behavior)),
            old(self)@.progressed_to(final(self)@),
    {
        self.entities.push(
            EntityData { behavior: Some(behavior), id: self.next_id, components: HashMap::new(), tags: Vec::new() },
        );
        self.next_id += 1;
        proof {
            assert(self@.entities =~~= old(self)@.spawned(Some(behavior)).entities);
            assert(self@ =~~= old(self)@.spawned(Some(behavior)));
            lemma_drawn_on_reflexive(old(self)@.map);
        }
    }

    /// Asks for the removal of the entity `id`. The entity stays in the
    /// store until the next frame starts; then it is gone before any entity
    /// is updated. To ask twice, or for an id that no entity has, is
    /// harmless.
    pub fn remove_entity(&mut self, id: i64)
        requires
            old(self).wf(),
        ensures
            final(self).wf(),
            final(self)@ == old(self)@.with_removal(id),
            old(self)@.progressed_to(final(self)@),
    {
        self.removal_queue.push(id);
        proof {
            lemma_drawn_on_reflexive(old(self)@.map);
        }
    }

    /// Draws `character` in `color` at `position` for the entity `id`. A
    /// position outside the map is clamped into it; drawing never fails.
    pub fn draw(&mut self, position: (u16, u16), character: char, color: Color, id: i64)
        requires
            old(self).wf(),
        ensures
            final(self).wf(),
            final(self)@ == old(self)@.drawn(position, character, color, id),
            old(self)@.progressed_to(final(self)@),
    {
        self.map.write(position, character, color, id);
        proof {
            lemma_write_stays_in_bounds(old(self)@.map, position, character, color, id);
        }
    }

    /// The ids that drew on the tile at `position` in the last completed
    /// frame, in the order in which they drew. What was drawn in the running
    /// frame does not show. A position outside the map is clamped into it.
    pub fn query_map(&self, position: (u16, u16)) -> (ids: &Vec<i64>)
        requires
            self.wf(),
        ensures
            ids@ == self@.map.occupants(position),
    {
        self.map.query(position)
    }

    /// Queues a line of diagnostics below the map: `line` 0 is the first
    /// row under it.
    pub fn debug_draw(&mut self, line: u16, text: &str)
        requires
            old(self).wf(),
        ensures
            final(self).wf(),
            final(self)@ == old(self)@.debug_drawn(line, text@),
            old(self)@.progressed_to(final(self)@),
    {
        let height: usize = self.map.height();
        let row: u16 = if height + (line as usize) <= u16::MAX as usize {
            (height + line as usize) as u16
        } else {
            u16::MAX
        };
        self.ui.debug_draw(row, text);
        proof {
            lemma_drawn_on_reflexive(old(self)@.map);
        }
    }
}

/// Whether `id` is one of the ids in `queue`.
fn queue_contains(queue: &Vec<i64>, id: i64) -> (found: bool)
    ensures
        found == queue@.contains(id),
{
    let mut i: usize = 0;
    while i < queue.len()
        invariant
            i <= queue.len(),
            forall|j: int| 0 <= j < i ==> queue@[j] != id,
        decreases queue.len() - i,
    {
        if queue[i] == id {
            return true;
        }
        i += 1;
    }
    false
}

impl<B, C> World<B, C> {
    /// Where the entity `id` stands in the store, if it is live.
    pub fn find_entity(&self, id: i64) -> (found: Option<usize>)
        requires
            self.wf(),
        ensures
            match found {
                Some(i) => self@.is_live(id) && self@.position(id) == i && i < self@.entities.len()
                    && self@.entities[i as int].id == id,
                None => !self@.is_live(id),
            },
    {
        let mut i: usize = 0;
        while i < self.entities.len()
            invariant
                self.wf(),
                i <= self.entities.len(),
                forall|j: int| 0 <= j < i ==> (#[trigger] self@.entities[j]).id != id,
            decreases self.entities.len() - i,
        {
            if self.entities[i].id == id {
                proof {
                    lemma_position_unique(self@, i as int);
                }
                return Some(i);
            }
            i += 1;
        }
        None
    }

    /// Attaches a component of a kind to the entity `id`. An entity has at
    /// most one component of a kind: a new one takes the place of the old
    /// one. If no entity has the id, nothing happens.
    pub fn set_component(&mut self, id: i64, kind: u64, value: C)
        requires
            old(self).wf(),
        ensures
            final(self).wf(),
            final(self)@ == old(self)@.with_component(id, kind, value),
            old(self)@.progressed_to(final(self)@),
    {
        match self.find_entity(id) {
            Some(i) => {
                self.entities[i].components.insert(kind, value);
                proof {
                    assert(self@.entities =~~= old(self)@.with_component(id, kind, value).entities);
                }
            },
            None => {
                proof {
                    assert(self@.entities =~~= old(self)@.with_component(id, kind, value).entities);
                }
            },
        }
        proof {
            assert(self@ =~~= old(self)@.with_component(id, kind, value));
            lemma_drawn_on_reflexive(old(self)@.map);
        }
    }

    /// Attaches a component of a kind to the entity `id`, as
    /// [`World::set_component`] does.
    pub fn add_component(&mut self, id: i64, kind: u64, component: C)
        requires
            old(self).wf(),
        ensures
            final(self).wf(),
            final(self)@ == old(self)@.with_component(id, kind, component),
            old(self)@.progressed_to(final(self)@),
    {
        self.set_component(id, kind, component);
    }

    /// The component of a kind that is attached to the entity `id`. There
    /// is none if no entity has the id, or if the entity has no component of
    /// the kind.
    pub fn get_component(&self, id: i64, kind: u64) -> (found: Option<&C>)
        requires
            self.wf(),
        ensures
            match found {
                Some(c) => self@.component(id, kind) == Some(*c),
                None => self@.component(id, kind) is None,
            },
    {
        match self.find_entity(id) {
            Some(i) => self.entities[i].component(kind),
            None => None,
        }
    }

    /// Gives the entity `id` a tag: the text without its spaces. If no
    /// entity has the id, nothing happens.
    pub fn add_tag(&mut self, id: i64, tags: &str)
        requires
            old(self).wf(),
        ensures
            final(self).wf(),
            final(self)@ == old(self)@.tagged(id, without_spaces(tags@)),
            old(self)@.progressed_to(final(self)@),
    {
        match self.find_entity(id) {
            Some(i) => {
                let tag = strip_spaces(tags);
                self.entities[i].tags.push(tag);
                proof {
                    assert(self@.entities[i as int].tags =~~= old(self)@.entities[i as int].tags.push(
                        without_spaces(tags@),
                    ));
                    assert(self@.entities =~~= old(self)@.tagged(id, without_spaces(tags@)).entities);
                }
            },
            None => {
                proof {
                    assert(self@.entities =~~= old(self)@.tagged(id, without_spaces(tags@)).entities);
                }
            },
        }
        proof {
            assert(self@ =~~= old(self)@.tagged(id, without_spaces(tags@)));
            lemma_drawn_on_reflexive(old(self)@.map);
        }
    }

    /// Works off the removal queue: every entity whose id waits in it
    /// leaves the store, the others keep their order, and the queue is
    /// emptied.
    pub fn flush_removals(&mut self)
        requires
            old(self).wf(),
        ensures
            final(self).wf(),
            final(self)@ == old(self)@.flushed(),
    {
        let ghost start = self@;
        let ghost keep = start.survives();
        let ghost mut seen: int = 0;
        let mut i: usize = 0;
        proof {
            reveal(Seq::filter);
            assert(start.entities.subrange(0, 0) =~= Seq::<EntityView<B, C>>::empty());
            assert(self@.entities =~= start.entities.subrange(0, 0).filter(keep) + start.entities.subrange(
                0,
                start.entities.len() as int,
            ));
        }
        while i < self.entities.len()
            invariant
                self.wf(),
                self@.map == start.map,
                self@.removal_queue == start.removal_queue,
                self@.next_id == start.next_id,
                self@.ui == start.ui,
                self@.input_policy == start.input_policy,
                0 <= seen <= start.entities.len(),
                keep == start.survives(),
                i == start.entities.subrange(0, seen).filter(keep).len(),
                self@.entities == start.entities.subrange(0, seen).filter(keep) + start.entities.subrange(
                    seen,
                    start.entities.len() as int,
                ),
            decreases start.entities.len() - seen,
        {
            let ghost before = self@;
            let ghost kept = start.entities.subrange(0, seen).filter(keep);
            let ghost longer = start.entities.subrange(0, seen + 1);
            proof {
                reveal(Seq::filter);
                assert(seen < start.entities.len());
                assert(before.entities[i as int] == start.entities[seen]);
                assert(longer.drop_last() =~= start.entities.subrange(0, seen));
                assert(longer.last() == start.entities[seen]);
            }
            let doomed = queue_contains(&self.removal_queue, self.entities[i].id);
            proof {
                assert(self.entities@[i as int]@.id == start.entities[seen].id);
                assert(keep(start.entities[seen]) == !doomed);
            }
            if doomed {
                self.entities.remove(i);
                proof {
                    reveal(Seq::filter);
                    assert(longer.filter(keep) == kept);
                    assert(self@.entities =~= before.entities.remove(i as int));
                    assert(self@.entities =~= kept + start.entities.subrange(
                        seen + 1,
                        start.entities.len() as int,
                    ));
                }
            } else {
                proof {
                    reveal(Seq::filter);
                    assert(longer.filter(keep) == kept.push(start.entities[seen]));
                    assert(self@.entities =~= longer.filter(keep) + start.entities.subrange(
                        seen + 1,
                        start.entities.len() as int,
                    ));
                }
                i += 1;
            }
            proof {
                seen = seen + 1;
            }
        }
        self.removal_queue.clear();
        proof {
            assert(seen == start.entities.len());
            assert(start.entities.subrange(0, seen) =~= start.entities);
            assert(self@.entities =~= start.flushed().entities);
            assert(self@ =~~= start.flushed());
        }
    }

    /// Puts the map on the terminal: the glyph of every tile that has an
    /// occupant from this frame or the last one is queued, column by column
    /// and each column from the top.
    pub fn draw_map(&mut self)
        requires
            old(self).wf(),
        ensures
            final(self).wf(),
            final(self)@ == old(self)@.rendered(),
    {
        let ghost start = self@;
        let width: usize = self.map.width();
        let height: usize = self.map.height();
        let mut c: usize = 0;
        proof {
            lemma_columns_step(start.map, 0);
            assert(self@ =~~= (WorldView { ui: start.ui.queue(columns_commands(start.map, 0)), ..start }));
        }
        while c < width
            invariant
                self.wf(),
                start.wf(),
                width == start.map.width(),
                height == start.map.height(),
                c <= width,
                self@ == (WorldView { ui: start.ui.queue(columns_commands(start.map, c as nat)), ..start }),
            decreases width - c,
        {
            let mut r: usize = 0;
            proof {
                lemma_column_step(start.map, c as int, 0);
                assert(self@ =~~= (WorldView {
                    ui: start.ui.queue(
                        columns_commands(start.map, c as nat) + column_commands(start.map, c as int, 0),
                    ),
                    ..start
                }));
            }
            while r < height
                invariant
                    self.wf(),
                    start.wf(),
                    width == start.map.width(),
                    height == start.map.height(),
                    c < width,
                    r <= height,
                    self@ == (WorldView {
                        ui: start.ui.queue(
                            columns_commands(start.map, c as nat) + column_commands(
                                start.map,
                                c as int,
                                r as nat,
                            ),
                        ),
                        ..start
                    }),
                decreases height - r,
            {
                let tile = self.map.tile(c, r);
                let dirty = tile.is_dirty();
                let glyph = tile.glyph();
                let color = tile.color();
                proof {
                    lemma_column_step(start.map, c as int, r as nat);
                }
                if dirty {
                    self.ui.terminal_draw((c as u16, r as u16), glyph, color);
                    proof {
                        assert(self@ =~~= (WorldView {
                            ui: start.ui.queue(
                                columns_commands(start.map, c as nat) + column_commands(
                                    start.map,
                                    c as int,
                                    (r + 1) as nat,
                                ),
                            ),
                            ..start
                        }));
                    }
                }
                r += 1;
            }
            proof {
                lemma_columns_step(start.map, c as nat);
            }
            c += 1;
        }
    }

    /// Shows the frame and passes the frame boundary: the occupied tiles
    /// are queued, then a flush, and the map is rotated, so that queries now
    /// see what this frame drew.
    pub fn present(&mut self)
        requires
            old(self).wf(),
        ensures
            final(self).wf(),
            final(self)@ == old(self)@.presented(),
    {
        self.draw_map();
        self.ui.flush();
        self.map.clear();
        proof {
            lemma_rotated_wf(old(self)@.map);
            assert(self@ =~~= old(self)@.presented());
        }
    }

    /// Takes the terminal into raw mode and makes it ready for the first
    /// frame. On a terminal that is past that, the steps already taken are
    /// not taken again.
    pub fn init(&mut self)
        ensures
            final(self)@ == (WorldView { ui: old(self)@.ui.raw_mode_entered().started(), ..old(self)@ }),
            old(self).wf() ==> final(self).wf(),
    {
        self.ui.enter_raw_mode();
        self.ui.start();
    }

    /// Gives the terminal back as it was found.
    pub fn shutdown(&mut self)
        ensures
            final(self)@ == (WorldView { ui: old(self)@.ui.restored(), ..old(self)@ }),
            old(self).wf() ==> final(self).wf(),
    {
        self.ui.restore();
    }

    /// Hands out the terminal commands that wait, oldest first, and leaves
    /// the queue empty.
    pub fn take_commands(&mut self) -> (commands: Vec<TerminalCommand>)
        ensures
            commands@.map_values(|c: TerminalCommand| c@) == old(self)@.ui.queued,
            final(self)@ == (WorldView {
                ui: UIView { queued: Seq::empty(), ..old(self)@.ui },
                ..old(self)@
            }),
            old(self).wf() ==> final(self).wf(),
    {
        self.ui.take_commands()
    }
}

impl<B: Update<C>, C> World<B, C> {
    /// Adds an entity as [`World::add_entity`] does, and then calls its
    /// `start` once with the id that it got. The entity is in the store
    /// while `start` runs, so `start` can attach components to it.
    pub fn add_entity_with_start(&mut self, behavior: B)
        requires
            old(self).wf(),
            old(self)@.next_id < i64::MAX,
        ensures
            final(self).wf(),
            old(self)@.started(final(self)@),
            old(self)@.grown_to(final(self)@),
    {
        let id: i64 = self.next_id;
        let index: usize = self.entities.len();
        self.entities.push(EntityData { behavior: None, id, components: HashMap::new(), tags: Vec::new() });
        self.next_id += 1;
        let ghost born = self@;
        proof {
            assert(born.entities =~~= old(self)@.spawned(None).entities);
            assert(born =~~= old(self)@.spawned(None));
            assert(born.entities[index as int].id == id);
            lemma_drawn_on_reflexive(old(self)@.map);
            assert(old(self)@.grown_to(born));
        }
        let mut behavior = behavior;
        behavior.start(self, id);
        let ghost left = self@;
        self.entities[index].behavior = Some(behavior);
        proof {
            assert(self@.entities =~~= left.restored(index as int, behavior).entities);
            assert(self@ =~~= left.restored(index as int, behavior));
            lemma_drawn_on_reflexive(left.map);
            assert(left.grown_to(self@));
            lemma_growth_transitive(born, left, self@);
            lemma_growth_transitive(old(self)@, born, self@);
        }
    }

    /// Updates every entity that is live when the pass starts, once, in
    /// store order, each with `delta` and its own id. Entities that are
    /// added during the pass are not updated in it.
    pub fn update_pass(&mut self, delta: u64)
        requires
            old(self).wf(),
        ensures
            final(self).wf(),
            old(self)@.passed(old(self)@.entities.len(), delta, final(self)@),
            old(self)@.grown_to(final(self)@),
    {
        let count: usize = self.entities.len();
        let mut i: usize = 0;
        while i < count
            invariant
                self.wf(),
                old(self).wf(),
                old(self)@.passed(i as nat, delta, self@),
                old(self)@.grown_to(self@),
                i <= count,
                count == old(self)@.entities.len(),
            decreases count - i,
        {
            let ghost here = self@;
            let id: i64 = self.entities[i].id;
            let taken = self.entities[i].behavior.take();
            proof {
                assert(self@.entities =~~= here.taken(i as int).entities);
                assert(self@ =~~= here.taken(i as int));
                assert(self@.entities[i as int].id == id);
            }
            match taken {
                Some(mut behavior) => {
                    let ghost before = behavior;
                    behavior.update(delta, self, id);
                    let ghost left = self@;
                    self.entities[i].behavior = Some(behavior);
                    proof {
                        assert(self@.entities =~~= left.restored(i as int, behavior).entities);
                        assert(self@ =~~= left.restored(i as int, behavior));
                        assert(here.entities[i as int].behavior == Some(before));
                        assert(here.turn(i as int, delta, self@));
                    }
                },
                None => {
                    proof {
                        assert(here.taken(i as int).entities =~~= here.entities);
                        assert(self@ =~~= here);
                        assert(here.turn(i as int, delta, self@));
                    }
                },
            }
            proof {
                lemma_turn_grows(here, i as int, delta, self@);
                lemma_growth_transitive(old(self)@, here, self@);
                assert(here.turn((i + 1) as nat - 1, delta, self@));
                assert(old(self)@.passed((i + 1) as nat, delta, self@));
            }
            i += 1;
        }
    }

    /// One frame's work on the entities: the removal queue is worked off,
    /// every entity that is left is updated, and the frame is shown.
    pub fn update_entities(&mut self, delta: u64)
        requires
            old(self).wf(),
        ensures
            final(self).wf(),
            old(self)@.stepped(delta, final(self)@),
    {
        self.flush_removals();
        self.update_pass(delta);
        let ghost updated = self@;
        self.present();
        assert(old(self)@.flushed().passed(old(self)@.flushed().entities.len(), delta, updated));
    }

    /// One frame. The input source is sampled: `polled` is the key that
    /// arrived since the last sample, if one did. If the current key is then
    /// the quit key, the frame ends at once and the answer is `false`:
    /// nothing is removed, updated or shown. Otherwise the entities are
    /// updated and shown, the current key is dealt with as the policy says,
    /// and the answer is `true`.
    pub fn frame(&mut self, delta: u64, polled: Option<KeyCode>) -> (running: bool)
        requires
            old(self).wf(),
        ensures
            final(self).wf(),
            running == !spec_is_quit(old(self)@.input_sampled(polled).ui.current_input),
            !running ==> final(self)@ == old(self)@.input_sampled(polled),
            running ==> exists|shown: WorldView<B, C>|
                #[trigger] old(self)@.input_sampled(polled).stepped(delta, shown) && final(self)@
                    == shown.input_settled(),
    {
        self.ui.update_input(polled);
        let ghost sampled = self@;
        assert(sampled =~~= old(self)@.input_sampled(polled));
        if is_quit(self.ui.current_input()) {
            return false;
        }
        self.update_entities(delta);
        let ghost shown = self@;
        match self.input_policy {
            InputPolicy::ClearEachFrame => {
                self.ui.clear_input();
            },
            InputPolicy::Persist => {},
        }
        proof {
            assert(self@ =~~= shown.input_settled());
            assert(sampled.stepped(delta, shown));
        }
        true
    }
}

} // verus!
