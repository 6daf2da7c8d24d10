//! The rules of the small shooter that is played on the engine, as far as
//! they are decided on whole numbers: how the ship answers the keys and
//! where it may stand, what becomes of a bullet, and how the enemies march.
//! How fast things move is not decided here.

use vstd::prelude::*;
use crate::input::KeyCode;

verus! {

/// Whose side an entity is on.
#[derive(Clone, Copy, Debug, PartialEq, Eq, Structural)]
pub enum Alignment {
    Player,
    Enemy,
}

/// What a key makes the ship do.
#[derive(Clone, Copy, Debug, PartialEq, Eq, Structural)]
pub enum Steering {
    /// Go on as before.
    Keep,
    /// Stand still.
    Stop,
    /// Head left (-1) or right (1).
    Head(i8),
    /// Fire, if the gun is loaded.
    Fire,
}

/// What a key makes a ship do that heads left (-1), right (1) or nowhere
/// (0). A key against the heading stops the ship, a key with it or from
/// rest turns it that way, the up key fires, and any other key or none
/// changes nothing.
pub open spec fn spec_steer(heading: i8, key: Option<KeyCode>) -> Steering {
    match key {
        Some(KeyCode::Left) => if heading == 1 {
            Steering::Stop
        } else {
            Steering::Head(-1i8)
        },
        Some(KeyCode::Right) => if heading == -1 {
            Steering::Stop
        } else {
            Steering::Head(1i8)
        },
        Some(KeyCode::Up) => Steering::Fire,
        _ => Steering::Keep,
    }
}

/// What a key makes the ship do.
#[verifier::when_used_as_spec(spec_steer)]
pub fn steer(heading: i8, key: Option<KeyCode>) -> (steering: Steering)
    ensures
        steering == spec_steer(heading, key),
{
    match key {
        Some(KeyCode::Left) => {
            if heading == 1 {
                Steering::Stop
            } else {
                Steering::Head(-1)
            }
        },
        Some(KeyCode::Right) => {
            if heading == -1 {
                Steering::Stop
            } else {
                Steering::Head(1)
            }
        },
        Some(KeyCode::Up) => Steering::Fire,
        _ => Steering::Keep,
    }
}

/// The glyph of a ship by its heading.
pub open spec fn spec_ship_glyph(heading: i8) -> char {
    if heading == -1 {
        '<'
    } else if heading == 1 {
        '>'
    } else {
        '^'
    }
}

/// The glyph of a ship by its heading.
#[verifier::when_used_as_spec(spec_ship_glyph)]
pub fn ship_glyph(heading: i8) -> (glyph: char)
    ensures
        glyph == spec_ship_glyph(heading),
{
    if heading == -1 {
        '<'
    } else if heading == 1 {
        '>'
    } else {
        '^'
    }
}

/// A coordinate kept off the wall of a field with `size` cells along it:
/// not before cell 1 and not after the last cell but one.
pub open spec fn inside(at: int, size: int) -> int {
    if at < 1 {
        1
    } else if at > size - 2 {
        size - 2
    } else {
        at
    }
}

/// Where a ship stands after a step of -1, 0 or 1 columns: one column on,
/// and kept inside the walls of the field.
pub open spec fn spec_ship_cell(position: (u16, u16), step: i8, width: u16, height: u16) -> (u16, u16) {
    (inside(position.0 + step, width as int) as u16, inside(position.1 as int, height as int) as u16)
}

/// Where a ship stands after a step of -1, 0 or 1 columns on a field that
/// has room inside its walls.
pub fn ship_cell(position: (u16, u16), step: i8, width: u16, height: u16) -> (cell: (u16, u16))
    requires
        -1 <= step <= 1,
        width >= 3,
        height >= 3,
    ensures
        cell == spec_ship_cell(position, step, width, height),
        1 <= cell.0 <= width - 2,
        1 <= cell.1 <= height - 2,
{
    let column: u16 = if step == 1 {
        if position.0 >= width - 2 {
            width - 2
        } else if position.0 < 1 {
            1
        } else {
            position.0 + 1
        }
    } else if step == -1 {
        if position.0 <= 1 {
            1
        } else if position.0 - 1 > width - 2 {
            width - 2
        } else {
            position.0 - 1
        }
    } else {
        if position.0 < 1 {
            1
        } else if position.0 > width - 2 {
            width - 2
        } else {
            position.0
        }
    };
    let row: u16 = if position.1 < 1 {
        1
    } else if position.1 > height - 2 {
        height - 2
    } else {
        position.1
    };
    (column, row)
}

/// Whether a bullet in this row has reached the upper or lower wall of a
/// field with `height` rows, and leaves the game.
pub open spec fn spec_bullet_leaves(row: u16, height: u16) -> bool {
    row == 0 || row >= height - 1
}

/// Whether a bullet in this row has reached the upper or lower wall.
#[verifier::when_used_as_spec(spec_bullet_leaves)]
pub fn bullet_leaves(row: u16, height: u16) -> (leaves: bool)
    ensures
        leaves == spec_bullet_leaves(row, height),
{
    row == 0 || height == 0 || row >= height - 1
}

/// Whom a bullet meets on its cell: the first of those that stood there in
/// the last frame, unless that is the bullet itself.
pub open spec fn spec_bullet_target(occupants: Seq<i64>, id: i64) -> Option<i64> {
    if occupants.len() > 0 && occupants[0] != id {
        Some(occupants[0])
    } else {
        None
    }
}

/// Whom a bullet meets on its cell.
pub fn bullet_target(occupants: &Vec<i64>, id: i64) -> (target: Option<i64>)
    ensures
        target == spec_bullet_target(occupants@, id),
{
    if occupants.len() > 0 && occupants[0] != id {
        Some(occupants[0])
    } else {
        None
    }
}

/// Whether a bullet strikes whom it meets. It strikes the other side and
/// whatever is on no side; it passes through its own side.
pub open spec fn spec_bullet_hits(from_player: bool, struck: Option<Alignment>) -> bool {
    match struck {
        Some(Alignment::Enemy) => from_player,
        Some(Alignment::Player) => !from_player,
        None => true,
    }
}

/// Whether a bullet strikes whom it meets.
#[verifier::when_used_as_spec(spec_bullet_hits)]
pub fn bullet_hits(from_player: bool, struck: Option<Alignment>) -> (hits: bool)
    ensures
        hits == spec_bullet_hits(from_player, struck),
{
    match struck {
        Some(Alignment::Enemy) => from_player,
        Some(Alignment::Player) => !from_player,
        None => true,
    }
}

/// An enemy on the march: where it stands and whether it heads left (-1)
/// or right (1).
#[derive(Clone, Copy, Debug, PartialEq, Eq)]
pub struct March {
    pub position: (u16, u16),
    pub heading: i8,
}

/// The row below, as far as there is one.
pub open spec fn row_below(row: u16) -> u16 {
    if row < u16::MAX {
        (row + 1) as u16
    } else {
        row
    }
}

/// What becomes of a marching enemy when it is pushed one cell to the right
/// (1) or to the left (-1) between the columns `bounds.0` and `bounds.1`. At
/// the bound it is pushed against it turns round and drops one row;
/// elsewhere it moves one column on. Any other push leaves it where it is.
pub open spec fn spec_march(enemy: March, bounds: (u16, u16), push: i8) -> March {
    if push == 1 {
        if enemy.position.0 >= bounds.1 {
            March { position: (enemy.position.0, row_below(enemy.position.1)), heading: -1i8 }
        } else {
            March { position: ((enemy.position.0 + 1) as u16, enemy.position.1), heading: enemy.heading }
        }
    } else if push == -1 {
        if enemy.position.0 <= bounds.0 {
            March { position: (enemy.position.0, row_below(enemy.position.1)), heading: 1i8 }
        } else {
            March { position: ((enemy.position.0 - 1) as u16, enemy.position.1), heading: enemy.heading }
        }
    } else {
        enemy
    }
}

/// What becomes of a marching enemy when it is pushed one cell to the right
/// (1) or to the left (-1) between two columns.
pub fn march(enemy: March, bounds: (u16, u16), push: i8) -> (next: March)
    ensures
        next == spec_march(enemy, bounds, push),
{
    let row: u16 = if enemy.position.1 < u16::MAX {
        enemy.position.1 + 1
    } else {
        enemy.position.1
    };
    if push == 1 {
        if enemy.position.0 >= bounds.1 {
            March { position: (enemy.position.0, row), heading: -1 }
        } else {
            March { position: (enemy.position.0 + 1, enemy.position.1), heading: enemy.heading }
        }
    } else if push == -1 {
        if enemy.position.0 <= bounds.0 {
            March { position: (enemy.position.0, row), heading: 1 }
        } else {
            March { position: (enemy.position.0 - 1, enemy.position.1), heading: enemy.heading }
        }
    } else {
        enemy
    }
}

/// A marching enemy stays between its bounds: pushed from a column between
/// them, it stands on a column between them.
pub proof fn lemma_march_stays_in_bounds(enemy: March, bounds: (u16, u16), push: i8)
    requires
        bounds.0 <= enemy.position.0 <= bounds.1,
    ensures
        bounds.0 <= spec_march(enemy, bounds, push).position.0 <= bounds.1,
{
}

} // verus!
