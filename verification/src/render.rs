//! What a frame puts on the terminal: one glyph for every tile that has an
//! occupant from this frame or the last one. Tiles that nobody occupies are
//! left as they are on the screen.

use vstd::prelude::*;
use crate::map::MapView;
use crate::terminal::CommandView;
use crate::terminal::glyph_command;

verus! {

/// The command that puts the tile in column `c` and row `r` on the terminal.
pub open spec fn tile_command(map: MapView, c: int, r: int) -> CommandView {
    glyph_command((c as u16, r as u16), map.tile(c, r).glyph, map.tile(c, r).color)
}

/// The commands for the first `rows` rows of column `c`, from the top: one
/// for each tile that has an occupant.
pub open spec fn column_commands(map: MapView, c: int, rows: nat) -> Seq<CommandView> {
    Seq::new(rows, |r: int| r).filter(|r: int| map.tile(c, r).dirty()).map_values(
        |r: int| tile_command(map, c, r),
    )
}

/// The commands for the first `cols` columns, from the left, each column
/// from the top.
pub open spec fn columns_commands(map: MapView, cols: nat) -> Seq<CommandView> {
    Seq::new(cols, |c: int| column_commands(map, c, map.height())).flatten()
}

/// The commands that put a whole map on the terminal.
pub open spec fn render_commands(map: MapView) -> Seq<CommandView> {
    columns_commands(map, map.width())
}

/// One more row of a column adds one command if its tile has an occupant,
/// and nothing if it has none.
pub proof fn lemma_column_step(map: MapView, c: int, rows: nat)
    ensures
        column_commands(map, c, rows + 1) == if map.tile(c, rows as int).dirty() {
            column_commands(map, c, rows).push(tile_command(map, c, rows as int))
        } else {
            column_commands(map, c, rows)
        },
        column_commands(map, c, 0) == Seq::<CommandView>::empty(),
{
    reveal(Seq::filter);
    let dirty = |r: int| map.tile(c, r).dirty();
    let shorter = Seq::new(rows, |r: int| r);
    let longer = Seq::new(rows + 1, |r: int| r);
    assert(longer.drop_last() =~= shorter);
    assert(longer.last() == rows as int);
    if dirty(rows as int) {
        assert(longer.filter(dirty) == shorter.filter(dirty).push(rows as int));
        assert(column_commands(map, c, rows + 1) =~= column_commands(map, c, rows).push(
            tile_command(map, c, rows as int),
        ));
    } else {
        assert(longer.filter(dirty) == shorter.filter(dirty));
    }
    assert(Seq::new(0, |r: int| r).filter(dirty) =~= Seq::<int>::empty());
    assert(column_commands(map, c, 0) =~= Seq::<CommandView>::empty());
}

/// One more column adds that column's commands at the end.
pub proof fn lemma_columns_step(map: MapView, cols: nat)
    ensures
        columns_commands(map, cols + 1) == columns_commands(map, cols) + column_commands(
            map,
            cols as int,
            map.height(),
        ),
        columns_commands(map, 0) == Seq::<CommandView>::empty(),
{
    let shorter = Seq::new(cols, |c: int| column_commands(map, c, map.height()));
    let longer = Seq::new(cols + 1, |c: int| column_commands(map, c, map.height()));
    assert(longer =~= shorter.push(column_commands(map, cols as int, map.height())));
    shorter.lemma_flatten_push(column_commands(map, cols as int, map.height()));
    assert(Seq::new(0, |c: int| column_commands(map, c, map.height())) =~= Seq::<Seq<CommandView>>::empty());
}

/// Only tiles with an occupant are drawn: every command that a map gives
/// is the glyph of a tile in the grid that has an occupant from this frame
/// or the last one, at that tile's own column and row.
pub proof fn lemma_render_only_occupied(map: MapView, i: int)
    requires
        map.wf(),
        0 <= i < render_commands(map).len(),
    ensures
        exists|c: int, r: int|
            map.in_bounds(c, r) && map.tile(c, r).dirty() && render_commands(map)[i] == #[trigger] tile_command(
                map,
                c,
                r,
            ),
{
    lemma_columns_only_occupied(map, map.width(), i);
}

/// Every occupied tile is drawn: a tile of the grid that has an occupant
/// from this frame or the last one has its command among those that the map
/// gives.
pub proof fn lemma_render_every_occupied(map: MapView, c: int, r: int)
    requires
        map.wf(),
        map.in_bounds(c, r),
        map.tile(c, r).dirty(),
    ensures
        exists|i: int| 0 <= i < render_commands(map).len() && #[trigger] render_commands(map)[i] == tile_command(
            map,
            c,
            r,
        ),
{
    let j = lemma_column_every_occupied(map, c, map.height(), r);
    let i = lemma_columns_hold_column(map, map.width(), c, j);
    assert(render_commands(map)[i] == tile_command(map, c, r));
}

proof fn lemma_column_every_occupied(map: MapView, c: int, rows: nat, r: int) -> (i: int)
    requires
        0 <= r < rows,
        map.tile(c, r).dirty(),
    ensures
        0 <= i < column_commands(map, c, rows).len(),
        column_commands(map, c, rows)[i] == tile_command(map, c, r),
    decreases rows,
{
    let before = (rows - 1) as nat;
    lemma_column_step(map, c, before);
    if r < before {
        lemma_column_every_occupied(map, c, before, r)
    } else {
        column_commands(map, c, before).len() as int
    }
}

proof fn lemma_columns_hold_column(map: MapView, cols: nat, c: int, j: int) -> (i: int)
    requires
        0 <= c < cols,
        0 <= j < column_commands(map, c, map.height()).len(),
    ensures
        0 <= i < columns_commands(map, cols).len(),
        columns_commands(map, cols)[i] == column_commands(map, c, map.height())[j],
    decreases cols,
{
    let before = (cols - 1) as nat;
    lemma_columns_step(map, before);
    if c < before {
        lemma_columns_hold_column(map, before, c, j)
    } else {
        columns_commands(map, before).len() + j
    }
}

proof fn lemma_column_only_occupied(map: MapView, c: int, rows: nat, i: int)
    requires
        0 <= i < column_commands(map, c, rows).len(),
    ensures
        exists|r: int|
            0 <= r < rows && map.tile(c, r).dirty() && column_commands(map, c, rows)[i] == #[trigger] tile_command(
                map,
                c,
                r,
            ),
    decreases rows,
{
    if rows == 0 {
        lemma_column_step(map, c, 0);
    } else {
        let before = (rows - 1) as nat;
        lemma_column_step(map, c, before);
        if i < column_commands(map, c, before).len() {
            lemma_column_only_occupied(map, c, before, i);
            let r = choose|r: int|
                0 <= r < before && map.tile(c, r).dirty() && column_commands(map, c, before)[i] == #[trigger] tile_command(
                    map,
                    c,
                    r,
                );
            assert(column_commands(map, c, rows)[i] == tile_command(map, c, r));
        } else {
            assert(column_commands(map, c, rows)[i] == tile_command(map, c, before as int));
        }
    }
}

proof fn lemma_columns_only_occupied(map: MapView, cols: nat, i: int)
    requires
        cols <= map.width(),
        0 <= i < columns_commands(map, cols).len(),
    ensures
        exists|c: int, r: int|
            0 <= c < cols && 0 <= r < map.height() && map.tile(c, r).dirty() && columns_commands(map, cols)[i]
                == #[trigger] tile_command(map, c, r),
    decreases cols,
{
    if cols == 0 {
        lemma_columns_step(map, 0);
    } else {
        let before = (cols - 1) as nat;
        lemma_columns_step(map, before);
        let head = columns_commands(map, before);
        if i < head.len() {
            lemma_columns_only_occupied(map, before, i);
            let (c, r) = choose|c: int, r: int|
                0 <= c < before && 0 <= r < map.height() && map.tile(c, r).dirty() && head[i] == #[trigger] tile_command(
                    map,
                    c,
                    r,
                );
            assert(columns_commands(map, cols)[i] == tile_command(map, c, r));
        } else {
            let j = i - head.len();
            lemma_column_only_occupied(map, before as int, map.height(), j);
            let r = choose|r: int|
                0 <= r < map.height() && map.tile(before as int, r).dirty() && column_commands(
                    map,
                    before as int,
                    map.height(),
                )[j] == #[trigger] tile_command(map, before as int, r);
            assert(columns_commands(map, cols)[i] == tile_command(map, before as int, r));
        }
    }
}

} // verus!
