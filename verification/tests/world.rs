use std::cell::RefCell;
use std::rc::Rc;

use grid_engine::color::Color;
use grid_engine::input::{InputPolicy, KeyCode};
use grid_engine::terminal::{TerminalCommand, TerminalState};
use grid_engine::behavior::Update;
use grid_engine::text::strip_spaces;
use grid_engine::world::World;

type Calls = Rc<RefCell<Vec<(i64, u64)>>>;

fn calls() -> Calls {
    Rc::new(RefCell::new(Vec::new()))
}

const HEALTH: u64 = 0;
const ALIGNMENT: u64 = 1;

enum Actor {
    /// Draws one glyph at one place on every update.
    Painter { at: (u16, u16), glyph: char, color: Color, calls: Calls },
    /// Draws, then asks for its own removal.
    Leaver { at: (u16, u16), calls: Calls },
    /// Asks for the removal of another entity, then draws.
    Remover { target: i64, at: (u16, u16), calls: Calls },
    /// Adds a painter on every update.
    Spawner { child_at: (u16, u16), calls: Calls },
    /// Notes what a query at one place answers.
    Watcher { at: (u16, u16), seen: Rc<RefCell<Vec<Vec<i64>>>> },
    /// Notes the current key, then clears it.
    Listener { heard: Rc<RefCell<Vec<Option<KeyCode>>>>, clear: bool },
    /// Attaches components to itself when it is started.
    Starter { started: Rc<RefCell<Vec<(i64, bool)>>>, calls: Calls },
    /// Notes where it finds itself and which behaviors are with their
    /// entities while it is updated.
    Mirror { seen: Rc<RefCell<Vec<(Option<usize>, Option<i32>, Vec<bool>)>>> },
    /// Adds a starter, with its start, on every update.
    Nursery { started: Rc<RefCell<Vec<(i64, bool)>>>, calls: Calls },
}

impl Update<i32> for Actor {
    fn start(&mut self, world: &mut World<Self, i32>, id: i64) {
        if let Actor::Starter { started, .. } = self {
            let live = world.find_entity(id).is_some();
            started.borrow_mut().push((id, live));
            world.set_component(id, HEALTH, 10);
            world.set_component(id, ALIGNMENT, -1);
        }
    }

    fn update(&mut self, delta: u64, world: &mut World<Self, i32>, id: i64) {
        match self {
            Actor::Painter { at, glyph, color, calls } => {
                calls.borrow_mut().push((id, delta));
                world.draw(*at, *glyph, *color, id);
            }
            Actor::Leaver { at, calls } => {
                calls.borrow_mut().push((id, delta));
                world.draw(*at, 'L', Color::Red, id);
                world.remove_entity(id);
            }
            Actor::Remover { target, at, calls } => {
                calls.borrow_mut().push((id, delta));
                world.remove_entity(*target);
                world.draw(*at, 'R', Color::Red, id);
            }
            Actor::Spawner { child_at, calls } => {
                calls.borrow_mut().push((id, delta));
                world.add_entity(Actor::Painter {
                    at: *child_at,
                    glyph: 'c',
                    color: Color::Blue,
                    calls: calls.clone(),
                });
            }
            Actor::Watcher { at, seen } => {
                seen.borrow_mut().push(world.query_map(*at).clone());
            }
            Actor::Listener { heard, clear } => {
                heard.borrow_mut().push(world.current_input());
                if *clear {
                    world.clear_input();
                }
            }
            Actor::Starter { calls, .. } => {
                calls.borrow_mut().push((id, delta));
            }
            Actor::Mirror { seen } => {
                let place = world.find_entity(id);
                let health = world.get_component(id, HEALTH).copied();
                let present = world.entities().iter().map(|e| e.behavior().is_some()).collect();
                seen.borrow_mut().push((place, health, present));
            }
            Actor::Nursery { started, calls } => {
                calls.borrow_mut().push((id, delta));
                world.add_entity_with_start(Actor::Starter {
                    started: started.clone(),
                    calls: calls.clone(),
                });
            }
        }
    }
}

fn painter(at: (u16, u16), glyph: char, calls: &Calls) -> Actor {
    Actor::Painter { at, glyph, color: Color::Green, calls: calls.clone() }
}

fn ids(world: &World<Actor, i32>) -> Vec<i64> {
    world.entities().iter().map(|e| e.id()).collect()
}

fn glyphs(commands: &[TerminalCommand]) -> Vec<(u16, u16, char, Color)> {
    let mut out = Vec::new();
    for command in commands {
        if let TerminalCommand::WriteGlyph { col, row, glyph, color } = command {
            out.push((*col, *row, *glyph, *color));
        }
    }
    out
}

#[test]
fn new_world_is_empty() {
    let world: World<Actor, i32> = World::new(25, 15);
    assert_eq!(world.map_width(), 25);
    assert_eq!(world.map_height(), 15);
    assert_eq!(world.entity_count(), 0);
    assert_eq!(world.next_id(), 0);
    assert!(world.removal_queue().is_empty());
    assert_eq!(world.current_input(), None);
    assert_eq!(world.last_input(), None);
    assert_eq!(world.input_policy(), InputPolicy::ClearEachFrame);
    assert_eq!(world.ui().state(), TerminalState::Uninitialized);
    assert_eq!(world.ui().queued_len(), 0);
    assert_eq!(world.map().tile(0, 0).glyph(), '#');
}

#[test]
fn ids_count_up_from_zero_and_are_not_used_again() {
    let log = calls();
    let mut world: World<Actor, i32> = World::new(5, 5);
    world.add_entity(painter((0, 0), 'a', &log));
    world.add_entity(painter((1, 0), 'b', &log));
    world.add_entity(painter((2, 0), 'c', &log));
    assert_eq!(ids(&world), vec![0, 1, 2]);
    assert_eq!(world.next_id(), 3);
    world.remove_entity(1);
    world.remove_entity(2);
    world.flush_removals();
    assert_eq!(ids(&world), vec![0]);
    world.add_entity(painter((3, 0), 'd', &log));
    assert_eq!(ids(&world), vec![0, 3]);
    assert_eq!(world.next_id(), 4);
}

#[test]
fn a_draw_is_seen_by_a_query_in_the_next_frame() {
    let log = calls();
    let mut world: World<Actor, i32> = World::new(25, 15);
    for _ in 0..7 {
        world.add_entity(painter((0, 0), '.', &log));
    }
    world.add_entity(painter((12, 13), '^', &log));
    assert_eq!(ids(&world), vec![0, 1, 2, 3, 4, 5, 6, 7]);
    assert!(world.frame(40_000, None));
    assert_eq!(world.query_map((12, 13)), &vec![7]);
}

#[test]
fn two_entities_on_one_cell_are_seen_in_write_order() {
    let log = calls();
    let mut world: World<Actor, i32> = World::new(25, 15);
    for _ in 0..3 {
        world.add_entity(painter((1, 1), '.', &log));
    }
    world.add_entity(painter((9, 4), 'x', &log));
    world.add_entity(painter((9, 4), 'y', &log));
    assert!(world.frame(40_000, None));
    assert_eq!(world.query_map((9, 4)), &vec![3, 4]);
    assert_eq!(world.query_map((1, 1)), &vec![0, 1, 2]);
}

#[test]
fn a_query_in_a_frame_answers_with_the_frame_before() {
    let log = calls();
    let seen = Rc::new(RefCell::new(Vec::new()));
    let mut world: World<Actor, i32> = World::new(8, 8);
    world.add_entity(painter((2, 2), 'p', &log));
    world.add_entity(Actor::Watcher { at: (2, 2), seen: seen.clone() });
    assert!(world.frame(40_000, None));
    assert!(world.frame(40_000, None));
    world.remove_entity(0);
    assert!(world.frame(40_000, None));
    assert!(world.frame(40_000, None));
    assert_eq!(*seen.borrow(), vec![vec![], vec![0], vec![0], vec![]]);
}

#[test]
fn every_live_entity_is_updated_once_per_frame_in_store_order_with_the_delta() {
    let log = calls();
    let mut world: World<Actor, i32> = World::new(8, 8);
    world.add_entity(painter((0, 0), 'a', &log));
    world.add_entity(painter((1, 0), 'b', &log));
    world.add_entity(painter((2, 0), 'c', &log));
    assert!(world.frame(41_000, None));
    assert!(world.frame(52_500, None));
    assert_eq!(
        *log.borrow(),
        vec![(0, 41_000), (1, 41_000), (2, 41_000), (0, 52_500), (1, 52_500), (2, 52_500)]
    );
    assert_eq!(ids(&world), vec![0, 1, 2]);
    for entity in world.entities() {
        assert!(entity.behavior().is_some());
    }
}

#[test]
fn removal_is_deferred_to_the_start_of_the_next_frame() {
    let log = calls();
    let mut world: World<Actor, i32> = World::new(8, 8);
    world.add_entity(Actor::Leaver { at: (3, 3), calls: log.clone() });
    world.add_entity(painter((4, 4), 'p', &log));
    assert!(world.frame(40_000, None));
    assert_eq!(*log.borrow(), vec![(0, 40_000), (1, 40_000)]);
    assert_eq!(ids(&world), vec![0, 1]);
    assert_eq!(world.removal_queue(), &vec![0]);
    let shown = world.take_commands();
    assert_eq!(glyphs(&shown), vec![(3, 3, 'L', Color::Red), (4, 4, 'p', Color::Green)]);
    assert_eq!(world.query_map((3, 3)), &vec![0]);

    assert!(world.frame(40_000, None));
    assert_eq!(*log.borrow(), vec![(0, 40_000), (1, 40_000), (1, 40_000)]);
    assert_eq!(ids(&world), vec![1]);
    assert!(world.removal_queue().is_empty());
    assert!(world.find_entity(0).is_none());

    assert!(world.frame(40_000, None));
    assert_eq!(log.borrow().len(), 4);
    assert_eq!(ids(&world), vec![1]);
}

#[test]
fn an_entity_removed_by_another_is_still_updated_in_that_frame() {
    let log = calls();
    let mut world: World<Actor, i32> = World::new(8, 8);
    world.add_entity(Actor::Remover { target: 1, at: (0, 0), calls: log.clone() });
    world.add_entity(painter((5, 5), 'v', &log));
    assert!(world.frame(40_000, None));
    assert_eq!(*log.borrow(), vec![(0, 40_000), (1, 40_000)]);
    assert_eq!(world.query_map((5, 5)), &vec![1]);
    assert!(world.frame(40_000, None));
    assert_eq!(*log.borrow(), vec![(0, 40_000), (1, 40_000), (0, 40_000)]);
    assert_eq!(ids(&world), vec![0]);
    assert!(world.query_map((5, 5)).is_empty());
}

#[test]
fn removing_twice_is_removing_once() {
    let log = calls();
    let mut once: World<Actor, i32> = World::new(4, 4);
    let mut twice: World<Actor, i32> = World::new(4, 4);
    for world in [&mut once, &mut twice] {
        world.add_entity(painter((0, 0), 'a', &log));
        world.add_entity(painter((1, 1), 'b', &log));
        world.add_entity(painter((2, 2), 'c', &log));
    }
    once.remove_entity(1);
    twice.remove_entity(1);
    twice.remove_entity(1);
    assert_eq!(twice.removal_queue(), &vec![1, 1]);
    once.flush_removals();
    twice.flush_removals();
    assert_eq!(ids(&once), vec![0, 2]);
    assert_eq!(ids(&twice), vec![0, 2]);
    assert!(once.removal_queue().is_empty());
    assert!(twice.removal_queue().is_empty());
    assert_eq!(once.next_id(), twice.next_id());
    twice.remove_entity(1);
    twice.flush_removals();
    assert_eq!(ids(&twice), vec![0, 2]);
}

#[test]
fn removing_an_id_that_nobody_has_does_nothing() {
    let log = calls();
    let mut world: World<Actor, i32> = World::new(4, 4);
    world.add_entity(painter((0, 0), 'a', &log));
    world.add_entity(painter((1, 1), 'b', &log));
    world.remove_entity(17);
    world.remove_entity(-3);
    world.remove_entity(i64::MAX);
    assert_eq!(ids(&world), vec![0, 1]);
    assert!(world.frame(40_000, None));
    assert_eq!(ids(&world), vec![0, 1]);
    assert!(world.removal_queue().is_empty());
    assert_eq!(log.borrow().len(), 2);
}

#[test]
fn flushing_keeps_the_order_of_those_that_stay() {
    let log = calls();
    let mut world: World<Actor, i32> = World::new(4, 4);
    for _ in 0..6 {
        world.add_entity(painter((0, 0), 'a', &log));
    }
    world.remove_entity(4);
    world.remove_entity(0);
    world.remove_entity(2);
    world.flush_removals();
    assert_eq!(ids(&world), vec![1, 3, 5]);
    world.remove_entity(5);
    world.remove_entity(3);
    world.remove_entity(1);
    world.flush_removals();
    assert_eq!(ids(&world), Vec::<i64>::new());
    world.flush_removals();
    assert_eq!(world.entity_count(), 0);
}

#[test]
fn a_component_comes_back_as_it_was_set() {
    let log = calls();
    let mut world: World<Actor, i32> = World::new(4, 4);
    world.add_entity(painter((0, 0), 'a', &log));
    world.add_entity(painter((1, 1), 'b', &log));
    world.set_component(1, HEALTH, 10);
    assert_eq!(world.get_component(1, HEALTH), Some(&10));
    assert_eq!(world.get_component(1, ALIGNMENT), None);
    assert_eq!(world.get_component(0, HEALTH), None);
    world.set_component(1, ALIGNMENT, -1);
    world.set_component(0, HEALTH, 3);
    assert_eq!(world.get_component(1, HEALTH), Some(&10));
    assert_eq!(world.get_component(1, ALIGNMENT), Some(&-1));
    assert_eq!(world.get_component(0, HEALTH), Some(&3));
    assert_eq!(world.entities()[1].component(HEALTH), Some(&10));
}

#[test]
fn an_entity_has_one_component_of_a_kind() {
    let log = calls();
    let mut world: World<Actor, i32> = World::new(4, 4);
    world.add_entity(painter((0, 0), 'a', &log));
    world.set_component(0, HEALTH, 10);
    world.set_component(0, HEALTH, 7);
    assert_eq!(world.get_component(0, HEALTH), Some(&7));
    world.add_component(0, HEALTH, 5);
    assert_eq!(world.get_component(0, HEALTH), Some(&5));
}

#[test]
fn a_lookup_on_an_id_that_nobody_has_finds_nothing() {
    let log = calls();
    let mut world: World<Actor, i32> = World::new(4, 4);
    assert_eq!(world.get_component(0, HEALTH), None);
    world.set_component(0, HEALTH, 10);
    assert_eq!(world.get_component(0, HEALTH), None);
    world.add_entity(painter((0, 0), 'a', &log));
    assert_eq!(world.get_component(0, HEALTH), None);
    world.set_component(5, HEALTH, 10);
    assert_eq!(world.get_component(5, HEALTH), None);
    assert_eq!(world.get_component(0, HEALTH), None);
}

#[test]
fn components_leave_with_their_entity() {
    let log = calls();
    let mut world: World<Actor, i32> = World::new(4, 4);
    world.add_entity(painter((0, 0), 'a', &log));
    world.add_entity(painter((0, 0), 'b', &log));
    world.set_component(0, HEALTH, 10);
    world.set_component(1, HEALTH, 20);
    world.remove_entity(0);
    assert_eq!(world.get_component(0, HEALTH), Some(&10));
    world.flush_removals();
    assert_eq!(world.get_component(0, HEALTH), None);
    assert_eq!(world.get_component(1, HEALTH), Some(&20));
}

#[test]
fn an_entity_added_during_a_pass_is_first_updated_in_the_next() {
    let log = calls();
    let mut world: World<Actor, i32> = World::new(8, 8);
    world.add_entity(Actor::Spawner { child_at: (6, 6), calls: log.clone() });
    world.add_entity(painter((1, 1), 'p', &log));
    assert!(world.frame(40_000, None));
    assert_eq!(*log.borrow(), vec![(0, 40_000), (1, 40_000)]);
    assert_eq!(ids(&world), vec![0, 1, 2]);
    assert!(world.query_map((6, 6)).is_empty());
    log.borrow_mut().clear();
    assert!(world.frame(40_000, None));
    assert_eq!(*log.borrow(), vec![(0, 40_000), (1, 40_000), (2, 40_000)]);
    assert_eq!(ids(&world), vec![0, 1, 2, 3]);
    assert_eq!(world.query_map((6, 6)), &vec![2]);
}

#[test]
fn start_is_called_once_with_the_new_id_while_the_entity_is_live() {
    let log = calls();
    let started = Rc::new(RefCell::new(Vec::new()));
    let mut world: World<Actor, i32> = World::new(8, 8);
    world.add_entity(painter((1, 1), 'p', &log));
    world.add_entity_with_start(Actor::Starter { started: started.clone(), calls: log.clone() });
    assert_eq!(*started.borrow(), vec![(1, true)]);
    assert_eq!(ids(&world), vec![0, 1]);
    assert_eq!(world.next_id(), 2);
    assert_eq!(world.get_component(1, HEALTH), Some(&10));
    assert_eq!(world.get_component(1, ALIGNMENT), Some(&-1));
    assert!(world.entities()[1].behavior().is_some());
    assert!(log.borrow().is_empty());
    assert!(world.frame(40_000, None));
    assert!(world.frame(40_000, None));
    assert_eq!(started.borrow().len(), 1);
    assert_eq!(*log.borrow(), vec![(0, 40_000), (1, 40_000), (0, 40_000), (1, 40_000)]);
}

#[test]
fn add_entity_does_not_call_start() {
    let log = calls();
    let started = Rc::new(RefCell::new(Vec::new()));
    let mut world: World<Actor, i32> = World::new(8, 8);
    world.add_entity(Actor::Starter { started: started.clone(), calls: log.clone() });
    assert!(started.borrow().is_empty());
    assert_eq!(world.get_component(0, HEALTH), None);
    assert_eq!(ids(&world), vec![0]);
}

#[test]
fn the_quit_key_ends_the_loop_without_another_update() {
    let log = calls();
    let mut world: World<Actor, i32> = World::new(8, 8);
    world.add_entity(painter((2, 2), 'p', &log));
    for _ in 0..5 {
        assert!(world.frame(40_000, None));
    }
    assert_eq!(log.borrow().len(), 5);
    world.take_commands();
    assert!(!world.frame(40_000, Some(KeyCode::Char('q'))));
    assert_eq!(log.borrow().len(), 5);
    assert_eq!(world.ui().queued_len(), 0);
    assert_eq!(world.query_map((2, 2)), &vec![0]);
    assert_eq!(world.current_input(), Some(KeyCode::Char('q')));
    assert_eq!(world.last_input(), Some(KeyCode::Char('q')));
}

#[test]
fn a_frame_that_quits_removes_nobody() {
    let log = calls();
    let mut world: World<Actor, i32> = World::new(8, 8);
    world.add_entity(painter((2, 2), 'p', &log));
    world.remove_entity(0);
    assert!(!world.frame(40_000, Some(KeyCode::Char('q'))));
    assert_eq!(ids(&world), vec![0]);
    assert_eq!(world.removal_queue(), &vec![0]);
}

#[test]
fn other_keys_do_not_end_the_loop() {
    let mut world: World<Actor, i32> = World::new(8, 8);
    assert!(world.frame(40_000, Some(KeyCode::Char('Q'))));
    assert!(world.frame(40_000, Some(KeyCode::Esc)));
    assert!(world.frame(40_000, Some(KeyCode::Left)));
    assert!(world.frame(40_000, None));
}

#[test]
fn by_default_a_key_is_seen_in_one_frame_only() {
    let heard = Rc::new(RefCell::new(Vec::new()));
    let mut world: World<Actor, i32> = World::new(8, 8);
    world.add_entity(Actor::Listener { heard: heard.clone(), clear: false });
    assert!(world.frame(40_000, Some(KeyCode::Left)));
    assert_eq!(world.current_input(), None);
    assert_eq!(world.last_input(), Some(KeyCode::Left));
    assert!(world.frame(40_000, None));
    assert!(world.frame(40_000, Some(KeyCode::Up)));
    assert_eq!(*heard.borrow(), vec![Some(KeyCode::Left), None, Some(KeyCode::Up)]);
    assert_eq!(world.last_input(), Some(KeyCode::Up));
}

#[test]
fn a_persistent_key_stays_until_a_new_one_arrives() {
    let heard = Rc::new(RefCell::new(Vec::new()));
    let mut world: World<Actor, i32> = World::new(8, 8);
    world.set_input_policy(InputPolicy::Persist);
    assert_eq!(world.input_policy(), InputPolicy::Persist);
    world.add_entity(Actor::Listener { heard: heard.clone(), clear: false });
    assert!(world.frame(40_000, Some(KeyCode::Left)));
    assert_eq!(world.current_input(), Some(KeyCode::Left));
    assert!(world.frame(40_000, None));
    assert!(world.frame(40_000, Some(KeyCode::Up)));
    assert!(world.frame(40_000, None));
    assert_eq!(
        *heard.borrow(),
        vec![Some(KeyCode::Left), Some(KeyCode::Left), Some(KeyCode::Up), Some(KeyCode::Up)]
    );
}

#[test]
fn a_persistent_quit_key_ends_the_loop_in_the_next_frame() {
    let mut world: World<Actor, i32> = World::new(8, 8);
    world.set_input_policy(InputPolicy::Persist);
    assert!(world.frame(40_000, Some(KeyCode::Left)));
    assert!(!world.frame(40_000, Some(KeyCode::Char('q'))));
    assert!(!world.frame(40_000, None));
}

#[test]
fn a_behavior_can_take_the_key_away_from_those_after_it() {
    let first = Rc::new(RefCell::new(Vec::new()));
    let second = Rc::new(RefCell::new(Vec::new()));
    let mut world: World<Actor, i32> = World::new(8, 8);
    world.set_input_policy(InputPolicy::Persist);
    world.add_entity(Actor::Listener { heard: first.clone(), clear: true });
    world.add_entity(Actor::Listener { heard: second.clone(), clear: false });
    assert!(world.frame(40_000, Some(KeyCode::Enter)));
    assert!(world.frame(40_000, None));
    assert_eq!(*first.borrow(), vec![Some(KeyCode::Enter), None]);
    assert_eq!(*second.borrow(), vec![None, None]);
    assert_eq!(world.last_input(), Some(KeyCode::Enter));
}

#[test]
fn a_frame_shows_the_occupied_tiles_column_by_column_and_then_flushes() {
    let log = calls();
    let mut world: World<Actor, i32> = World::new(6, 6);
    world.add_entity(painter((4, 1), 'a', &log));
    world.add_entity(painter((0, 5), 'b', &log));
    world.add_entity(painter((4, 0), 'c', &log));
    world.add_entity(painter((0, 2), 'd', &log));
    world.add_entity(painter((4, 1), 'e', &log));
    assert!(world.frame(40_000, None));
    assert_eq!(
        world.take_commands(),
        vec![
            TerminalCommand::WriteGlyph { col: 0, row: 2, glyph: 'd', color: Color::Green },
            TerminalCommand::WriteGlyph { col: 0, row: 5, glyph: 'b', color: Color::Green },
            TerminalCommand::WriteGlyph { col: 4, row: 0, glyph: 'c', color: Color::Green },
            TerminalCommand::WriteGlyph { col: 4, row: 1, glyph: 'e', color: Color::Green },
            TerminalCommand::Flush,
        ]
    );
}

#[test]
fn a_tile_that_was_left_is_shown_blank_once() {
    let log = calls();
    let mut world: World<Actor, i32> = World::new(6, 6);
    world.add_entity(Actor::Leaver { at: (2, 3), calls: log.clone() });
    assert!(world.frame(40_000, None));
    assert_eq!(glyphs(&world.take_commands()), vec![(2, 3, 'L', Color::Red)]);
    assert!(world.frame(40_000, None));
    assert_eq!(glyphs(&world.take_commands()), vec![(2, 3, ' ', Color::Black)]);
    assert!(world.frame(40_000, None));
    assert_eq!(world.take_commands(), vec![TerminalCommand::Flush]);
}

#[test]
fn an_empty_world_shows_nothing_but_still_flushes() {
    let mut world: World<Actor, i32> = World::new(3, 3);
    assert!(world.frame(40_000, None));
    assert_eq!(world.take_commands(), vec![TerminalCommand::Flush]);
}

#[test]
fn draw_map_queues_glyphs_without_a_flush_and_leaves_the_map() {
    let mut world: World<Actor, i32> = World::new(3, 3);
    world.draw((1, 2), 'x', Color::Magenta, 4);
    world.draw_map();
    assert_eq!(
        world.take_commands(),
        vec![TerminalCommand::WriteGlyph { col: 1, row: 2, glyph: 'x', color: Color::Magenta }]
    );
    assert_eq!(world.map().tile(1, 2).current_occupants(), &vec![4]);
    assert!(world.query_map((1, 2)).is_empty());
}

#[test]
fn present_shows_the_frame_and_rotates_the_map() {
    let mut world: World<Actor, i32> = World::new(3, 3);
    world.draw((1, 2), 'x', Color::Magenta, 4);
    world.present();
    assert_eq!(
        world.take_commands(),
        vec![
            TerminalCommand::WriteGlyph { col: 1, row: 2, glyph: 'x', color: Color::Magenta },
            TerminalCommand::Flush,
        ]
    );
    assert_eq!(world.query_map((1, 2)), &vec![4]);
    assert_eq!(world.map().tile(1, 2).glyph(), ' ');
}

#[test]
fn drawing_through_the_world_clamps_like_the_map() {
    let mut world: World<Actor, i32> = World::new(25, 15);
    world.draw((1000, 1000), 'x', Color::White, 1);
    world.draw((24, 14), 'y', Color::White, 2);
    assert_eq!(world.map().tile(24, 14).current_occupants(), &vec![1, 2]);
    world.present();
    assert_eq!(world.query_map((40, 40)), &vec![1, 2]);
}

#[test]
fn debug_lines_stand_below_the_map() {
    let mut world: World<Actor, i32> = World::new(25, 15);
    world.debug_draw(0, "Tilt: (0.0, 0.0)");
    world.debug_draw(4, "Delta: 0.04");
    assert_eq!(
        world.take_commands(),
        vec![
            TerminalCommand::WriteLine { row: 15, text: String::from("Tilt: (0.0, 0.0)"), color: Color::Red },
            TerminalCommand::WriteLine { row: 19, text: String::from("Delta: 0.04"), color: Color::Red },
        ]
    );
}

#[test]
fn a_debug_line_too_far_down_stands_on_the_last_row() {
    let mut world: World<Actor, i32> = World::new(2, 15);
    world.debug_draw(65520, "edge");
    world.debug_draw(65521, "over");
    world.debug_draw(65535, "far");
    let rows: Vec<u16> = world
        .take_commands()
        .iter()
        .map(|c| match c {
            TerminalCommand::WriteLine { row, .. } => *row,
            _ => panic!("a debug line is a line"),
        })
        .collect();
    assert_eq!(rows, vec![65535, 65535, 65535]);
    let mut tall: World<Actor, i32> = World::new(1, 65535);
    tall.debug_draw(0, "below");
    assert_eq!(
        tall.take_commands(),
        vec![TerminalCommand::WriteLine { row: 65535, text: String::from("below"), color: Color::Red }]
    );
}

#[test]
fn init_and_shutdown_frame_a_run() {
    let mut world: World<Actor, i32> = World::new(4, 4);
    world.init();
    assert_eq!(world.ui().state(), TerminalState::Running);
    assert_eq!(
        world.take_commands(),
        vec![TerminalCommand::EnableRawMode, TerminalCommand::HideCursor, TerminalCommand::ClearScreen]
    );
    world.init();
    assert_eq!(world.ui().queued_len(), 0);
    assert!(world.frame(40_000, None));
    world.take_commands();
    world.shutdown();
    assert_eq!(world.ui().state(), TerminalState::Restored);
    assert_eq!(
        world.take_commands(),
        vec![
            TerminalCommand::ClearScreen,
            TerminalCommand::MoveCursor { col: 0, row: 0 },
            TerminalCommand::ShowCursor,
            TerminalCommand::DisableRawMode,
        ]
    );
    world.shutdown();
    assert_eq!(world.ui().queued_len(), 0);
}

#[test]
fn shutdown_before_init_leaves_the_terminal_alone() {
    let mut world: World<Actor, i32> = World::new(4, 4);
    world.shutdown();
    assert_eq!(world.ui().state(), TerminalState::Uninitialized);
    assert_eq!(world.ui().queued_len(), 0);
}

#[test]
fn a_tag_is_the_text_without_its_spaces() {
    let log = calls();
    let mut world: World<Actor, i32> = World::new(4, 4);
    world.add_entity(painter((0, 0), 'a', &log));
    world.add_entity(painter((0, 0), 'b', &log));
    world.add_tag(1, "enemy flying");
    world.add_tag(1, "boss");
    world.add_tag(7, "nobody");
    assert_eq!(world.entities()[0].tag_count(), 0);
    assert_eq!(world.entities()[1].tag_count(), 2);
    assert_eq!(world.entities()[1].tag(0), "enemyflying");
    assert_eq!(world.entities()[1].tag(1), "boss");
}

#[test]
fn strip_spaces_takes_out_spaces_only() {
    assert_eq!(strip_spaces(""), "");
    assert_eq!(strip_spaces("   "), "");
    assert_eq!(strip_spaces("a b  c "), "abc");
    assert_eq!(strip_spaces(" tab\tstays\n"), "tab\tstays\n");
    assert_eq!(strip_spaces("grüße an alle"), "grüßeanalle");
}

#[test]
fn find_entity_gives_the_place_in_the_store() {
    let log = calls();
    let mut world: World<Actor, i32> = World::new(4, 4);
    for _ in 0..4 {
        world.add_entity(painter((0, 0), 'a', &log));
    }
    world.remove_entity(1);
    world.flush_removals();
    assert_eq!(world.find_entity(0), Some(0));
    assert_eq!(world.find_entity(1), None);
    assert_eq!(world.find_entity(2), Some(1));
    assert_eq!(world.find_entity(3), Some(2));
    assert_eq!(world.find_entity(4), None);
    assert_eq!(world.find_entity(-1), None);
}

#[test]
fn update_pass_alone_neither_removes_nor_shows() {
    let log = calls();
    let mut world: World<Actor, i32> = World::new(4, 4);
    world.add_entity(painter((1, 1), 'a', &log));
    world.remove_entity(0);
    world.update_pass(7);
    assert_eq!(*log.borrow(), vec![(0, 7)]);
    assert_eq!(ids(&world), vec![0]);
    assert_eq!(world.ui().queued_len(), 0);
    assert_eq!(world.map().tile(1, 1).current_occupants(), &vec![0]);
    assert!(world.query_map((1, 1)).is_empty());
}

#[test]
fn update_entities_removes_updates_and_shows() {
    let log = calls();
    let mut world: World<Actor, i32> = World::new(4, 4);
    world.add_entity(painter((1, 1), 'a', &log));
    world.add_entity(painter((2, 2), 'b', &log));
    world.remove_entity(0);
    world.update_entities(9);
    assert_eq!(*log.borrow(), vec![(1, 9)]);
    assert_eq!(ids(&world), vec![1]);
    assert_eq!(glyphs(&world.take_commands()), vec![(2, 2, 'b', Color::Green)]);
    assert_eq!(world.query_map((2, 2)), &vec![1]);
}

#[test]
fn an_entity_is_in_the_store_while_it_is_updated() {
    let log = calls();
    let seen = Rc::new(RefCell::new(Vec::new()));
    let mut world: World<Actor, i32> = World::new(4, 4);
    world.add_entity(painter((0, 0), 'a', &log));
    world.add_entity(Actor::Mirror { seen: seen.clone() });
    world.add_entity(painter((1, 1), 'b', &log));
    world.set_component(1, HEALTH, 8);
    assert!(world.frame(40_000, None));
    assert_eq!(*seen.borrow(), vec![(Some(1), Some(8), vec![true, false, true])]);
    for entity in world.entities() {
        assert!(entity.behavior().is_some());
    }
}

#[test]
fn an_entity_added_with_start_during_a_pass_is_started_at_once() {
    let log = calls();
    let started = Rc::new(RefCell::new(Vec::new()));
    let mut world: World<Actor, i32> = World::new(4, 4);
    world.add_entity(Actor::Nursery { started: started.clone(), calls: log.clone() });
    assert!(world.frame(40_000, None));
    assert_eq!(*started.borrow(), vec![(1, true)]);
    assert_eq!(*log.borrow(), vec![(0, 40_000)]);
    assert_eq!(world.get_component(1, HEALTH), Some(&10));
    assert!(world.frame(40_000, None));
    assert_eq!(*started.borrow(), vec![(1, true), (2, true)]);
    assert_eq!(*log.borrow(), vec![(0, 40_000), (0, 40_000), (1, 40_000)]);
    assert_eq!(ids(&world), vec![0, 1, 2]);
}
