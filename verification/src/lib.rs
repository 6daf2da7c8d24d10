//! A small real-time game engine for a character grid: a map of tiles with
//! double-buffered occupancy, a store of entities that are updated once per
//! frame, and the commands that put a frame on a terminal. With it come the
//! scenery and the whole-number rules of the small shooter that is played
//! on it.
//!
//! The engine does no input or output itself. Whoever drives it reads the
//! clock and the keyboard, hands both to [`world::World::frame`], and
//! carries out the terminal commands that the frame has queued.

pub mod behavior;
pub mod color;
pub mod game_loop;
pub mod input;
pub mod map;
pub mod render;
pub mod scenery;
pub mod seq_filter;
pub mod shooter;
pub mod terminal;
pub mod text;
pub mod world;
pub mod world_view;
