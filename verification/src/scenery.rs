//! Scenery: entities that stand still and draw the same glyph on every
//! frame, and the ring of cells along the edge of a map where walls go.

use vstd::prelude::*;
use crate::color::Color;
use crate::behavior::Update;
use crate::world::World;
use crate::world_view::WorldView;

verus! {

/// A piece of the wall around the playing field: a white `#`.
pub struct Wall {
    pub position: (u16, u16),
}

/// A piece of cover inside the playing field: a yellow `#`.
pub struct Barrier {
    pub position: (u16, u16),
}

impl Wall {
    /// Draws the wall for the entity `id`.
    pub fn draw<B, C>(&self, world: &mut World<B, C>, id: i64)
        requires
            old(world).wf(),
        ensures
            final(world).wf(),
            final(world)@ == old(world)@.drawn(self.position, '#', Color::White, id),
            old(world)@.progressed_to(final(world)@),
    {
        world.draw(self.position, '#', Color::White, id);
    }
}

impl Barrier {
    /// Draws the barrier for the entity `id`.
    pub fn draw<B, C>(&self, world: &mut World<B, C>, id: i64)
        requires
            old(world).wf(),
        ensures
            final(world).wf(),
            final(world)@ == old(world)@.drawn(self.position, '#', Color::Yellow, id),
            old(world)@.progressed_to(final(world)@),
    {
        world.draw(self.position, '#', Color::Yellow, id);
    }
}

impl<C> Update<C> for Wall {
    /// A wall stays what it is and draws itself, and does nothing else.
    open spec fn updated(
        before: Self,
        after: Self,
        delta: u64,
        id: i64,
        world: WorldView<Self, C>,
        left: WorldView<Self, C>,
    ) -> bool {
        after == before && left == world.drawn(before.position, '#', Color::White, id)
    }

    fn update(&mut self, delta: u64, world: &mut World<Self, C>, id: i64) {
        self.draw(world, id);
    }
}

impl<C> Update<C> for Barrier {
    /// A barrier stays what it is and draws itself, and does nothing else.
    open spec fn updated(
        before: Self,
        after: Self,
        delta: u64,
        id: i64,
        world: WorldView<Self, C>,
        left: WorldView<Self, C>,
    ) -> bool {
        after == before && left == world.drawn(before.position, '#', Color::Yellow, id)
    }

    fn update(&mut self, delta: u64, world: &mut World<Self, C>, id: i64) {
        self.draw(world, id);
    }
}

/// Whether the cell in column `c` and row `r` lies on the edge of a grid of
/// `width` columns and `height` rows.
pub open spec fn on_border(c: int, r: int, width: int, height: int) -> bool {
    c == 0 || r == 0 || c == width - 1 || r == height - 1
}

/// The cells on the edge among the first `rows` cells of column `c`, from
/// the top.
pub open spec fn column_border(c: int, rows: nat, width: int, height: int) -> Seq<(u16, u16)> {
    Seq::new(rows, |r: int| r).filter(|r: int| on_border(c, r, width, height)).map_values(
        |r: int| (c as u16, r as u16),
    )
}

/// The cells on the edge of a grid among its first `cols` columns, column
/// by column from the left and each column from the top.
pub open spec fn columns_border(cols: nat, width: int, height: int) -> Seq<(u16, u16)> {
    Seq::new(cols, |c: int| column_border(c, height as nat, width, height)).flatten()
}

/// The cells on the edge of a grid, column by column from the left and each
/// column from the top.
pub open spec fn border(width: int, height: int) -> Seq<(u16, u16)> {
    columns_border(width as nat, width, height)
}

proof fn lemma_column_border_step(c: int, rows: nat, width: int, height: int)
    ensures
        column_border(c, rows + 1, width, height) == if on_border(c, rows as int, width, height) {
            column_border(c, rows, width, height).push((c as u16, rows as u16))
        } else {
            column_border(c, rows, width, height)
        },
        column_border(c, 0, width, height) == Seq::<(u16, u16)>::empty(),
{
    reveal(Seq::filter);
    let edge = |r: int| on_border(c, r, width, height);
    let shorter = Seq::new(rows, |r: int| r);
    let longer = Seq::new(rows + 1, |r: int| r);
    assert(longer.drop_last() =~= shorter);
    assert(longer.last() == rows as int);
    if edge(rows as int) {
        assert(longer.filter(edge) == shorter.filter(edge).push(rows as int));
        assert(column_border(c, rows + 1, width, height) =~= column_border(c, rows, width, height).push(
            (c as u16, rows as u16),
        ));
    } else {
        assert(longer.filter(edge) == shorter.filter(edge));
    }
    assert(Seq::new(0, |r: int| r).filter(edge) =~= Seq::<int>::empty());
    assert(column_border(c, 0, width, height) =~= Seq::<(u16, u16)>::empty());
}

proof fn lemma_columns_border_step(cols: nat, width: int, height: int)
    ensures
        columns_border(cols + 1, width, height) == columns_border(cols, width, height) + column_border(
            cols as int,
            height as nat,
            width,
            height,
        ),
        columns_border(0, width, height) == Seq::<(u16, u16)>::empty(),
{
    let shorter = Seq::new(cols, |c: int| column_border(c, height as nat, width, height));
    let longer = Seq::new(cols + 1, |c: int| column_border(c, height as nat, width, height));
    assert(longer =~= shorter.push(column_border(cols as int, height as nat, width, height)));
    shorter.lemma_flatten_push(column_border(cols as int, height as nat, width, height));
    assert(Seq::new(0, |c: int| column_border(c, height as nat, width, height)) =~= Seq::<
        Seq<(u16, u16)>,
    >::empty());
}

/// The cells on the edge of a grid of `width` columns and `height` rows,
/// column by column from the left and each column from the top: where the
/// walls around a playing field stand.
pub fn border_positions(width: u16, height: u16) -> (cells: Vec<(u16, u16)>)
    ensures
        cells@ == border(width as int, height as int),
{
    let mut cells: Vec<(u16, u16)> = Vec::new();
    let mut c: u16 = 0;
    proof {
        lemma_columns_border_step(0, width as int, height as int);
    }
    while c < width
        invariant
            c <= width,
            cells@ == columns_border(c as nat, width as int, height as int),
        decreases width - c,
    {
        let mut r: u16 = 0;
        proof {
            lemma_column_border_step(c as int, 0, width as int, height as int);
        }
        while r < height
            invariant
                c < width,
                r <= height,
                cells@ == columns_border(c as nat, width as int, height as int) + column_border(
                    c as int,
                    r as nat,
                    width as int,
                    height as int,
                ),
            decreases height - r,
        {
            proof {
                lemma_column_border_step(c as int, r as nat, width as int, height as int);
            }
            if c == 0 || r == 0 || c == width - 1 || r == height - 1 {
                cells.push((c, r));
            }
            r += 1;
        }
        proof {
            lemma_columns_border_step(c as nat, width as int, height as int);
        }
        c += 1;
    }
    cells
}

} // verus!
