//! The map: a fixed grid of tiles, each with a glyph, a color and two
//! lists of occupants. Entities write into the current list during a frame;
//! queries read the previous one, which holds what the last completed frame
//! wrote.

use vstd::prelude::*;
use crate::color::Color;

verus! {

/// What a tile holds: its glyph and color, the ids written to it in the
/// running frame, and the ids written to it in the last completed frame.
#[verifier::ext_equal]
pub struct TileView {
    pub glyph: char,
    pub color: Color,
    pub current: Seq<i64>,
    pub previous: Seq<i64>,
}

impl TileView {
    /// The tile of a map that has just been made.
    pub open spec fn initial() -> TileView {
        TileView { glyph: '#', color: Color::Black, current: Seq::empty(), previous: Seq::empty() }
    }

    /// A tile that somebody occupies in this frame or did in the last one:
    /// only such tiles are put on the terminal.
    pub open spec fn dirty(self) -> bool {
        self.current.len() > 0 || self.previous.len() > 0
    }

    /// The tile after `id` has drawn `glyph` in `color` on it: the last
    /// writer decides glyph and color, every writer is recorded.
    pub open spec fn written(self, glyph: char, color: Color, id: i64) -> TileView {
        TileView { glyph, color, current: self.current.push(id), previous: self.previous }
    }

    /// The tile at the frame boundary: blank, with this frame's occupants
    /// as the ones that queries now see.
    pub open spec fn rotated(self) -> TileView {
        TileView { glyph: ' ', color: Color::Black, current: Seq::empty(), previous: self.current }
    }
}

/// The grid as a mathematical value: `tiles[c][r]` is the tile in column
/// `c` and row `r`, with (0, 0) at the top left.
#[verifier::ext_equal]
pub struct MapView {
    pub tiles: Seq<Seq<TileView>>,
}

impl MapView {
    pub open spec fn width(self) -> nat {
        self.tiles.len()
    }

    pub open spec fn height(self) -> nat {
        if self.tiles.len() > 0 {
            self.tiles[0].len()
        } else {
            0
        }
    }

    /// A grid is rectangular, has at least one tile, and no side is longer
    /// than a terminal coordinate can say.
    pub open spec fn wf(self) -> bool {
        &&& 1 <= self.width() <= u16::MAX
        &&& 1 <= self.height() <= u16::MAX
        &&& forall|c: int| 0 <= c < self.width() ==> (#[trigger] self.tiles[c]).len() == self.height()
    }

    pub open spec fn in_bounds(self, c: int, r: int) -> bool {
        0 <= c < self.width() && 0 <= r < self.height()
    }

    /// The tile in column `c` and row `r`.
    pub open spec fn tile(self, c: int, r: int) -> TileView {
        self.tiles[c][r]
    }

    /// The column that a position's first coordinate falls on, once it is
    /// clamped into the grid.
    pub open spec fn clamp_col(self, position: (u16, u16)) -> int {
        if position.0 < self.width() {
            position.0 as int
        } else {
            self.width() - 1
        }
    }

    /// The row that a position's second coordinate falls on, once it is
    /// clamped into the grid.
    pub open spec fn clamp_row(self, position: (u16, u16)) -> int {
        if position.1 < self.height() {
            position.1 as int
        } else {
            self.height() - 1
        }
    }

    /// A grid of `width` by `height` tiles on which nothing was drawn yet.
    pub open spec fn blank(width: nat, height: nat) -> MapView {
        MapView {
            tiles: Seq::new(width, |c: int| Seq::new(height, |r: int| TileView::initial())),
        }
    }

    /// The grid after `id` has drawn at `position`: the tile that the
    /// clamped position names is written, every other tile is as it was.
    pub open spec fn written(self, position: (u16, u16), glyph: char, color: Color, id: i64) -> MapView {
        let c = self.clamp_col(position);
        let r = self.clamp_row(position);
        MapView {
            tiles: self.tiles.update(c, self.tiles[c].update(r, self.tiles[c][r].written(glyph, color, id))),
        }
    }

    /// The grid at the frame boundary: every tile rotated.
    pub open spec fn rotated(self) -> MapView {
        MapView {
            tiles: Seq::new(
                self.tiles.len(),
                |c: int| Seq::new(self.tiles[c].len(), |r: int| self.tiles[c][r].rotated()),
            ),
        }
    }

    /// What a query at `position` answers: the ids that drew on that tile
    /// in the last completed frame, in the order in which they drew.
    pub open spec fn occupants(self, position: (u16, u16)) -> Seq<i64> {
        self.tiles[self.clamp_col(position)][self.clamp_row(position)].previous
    }

    /// Nothing has been drawn since the last frame boundary.
    pub open spec fn fresh(self) -> bool {
        forall|c: int, r: int| self.in_bounds(c, r) ==> (#[trigger] self.tile(c, r)).current.len() == 0
    }

    /// What may have become of a grid while entities drew on it, within one
    /// frame: its size and what queries see are the same, and every tile's
    /// list of this frame's writers has only grown at its end.
    pub open spec fn drawn_on(self, later: MapView) -> bool {
        &&& later.width() == self.width()
        &&& later.height() == self.height()
        &&& forall|c: int, r: int|
            self.in_bounds(c, r) ==> {
                &&& (#[trigger] later.tile(c, r)).previous == self.tile(c, r).previous
                &&& self.tile(c, r).current.is_prefix_of(later.tile(c, r).current)
            }
    }
}

/// One drawing call, as an entity makes it.
pub struct Draw {
    pub position: (u16, u16),
    pub glyph: char,
    pub color: Color,
    pub id: i64,
}

impl MapView {
    /// The grid after a series of drawing calls, made in order.
    pub open spec fn drawn(self, draws: Seq<Draw>) -> MapView
        decreases draws.len(),
    {
        if draws.len() == 0 {
            self
        } else {
            let d = draws.last();
            self.drawn(draws.drop_last()).written(d.position, d.glyph, d.color, d.id)
        }
    }

    /// The ids of those drawing calls that fall on the tile in column `c`
    /// and row `r`, in the order of the calls.
    pub open spec fn writers(self, draws: Seq<Draw>, c: int, r: int) -> Seq<i64> {
        draws.filter(|d: Draw| self.clamp_col(d.position) == c && self.clamp_row(d.position) == r).map_values(
            |d: Draw| d.id,
        )
    }
}

/// Drawing never leaves the grid: whatever the position, the tile that is
/// written lies inside the grid, the grid keeps its size and stays
/// well-formed, and every other tile is as it was.
pub proof fn lemma_write_stays_in_bounds(m: MapView, position: (u16, u16), glyph: char, color: Color, id: i64)
    requires
        m.wf(),
    ensures
        m.in_bounds(m.clamp_col(position), m.clamp_row(position)),
        m.in_bounds(position.0 as int, position.1 as int) ==> m.clamp_col(position) == position.0
            && m.clamp_row(position) == position.1,
        m.written(position, glyph, color, id).wf(),
        m.written(position, glyph, color, id).width() == m.width(),
        m.written(position, glyph, color, id).height() == m.height(),
        m.written(position, glyph, color, id).tile(m.clamp_col(position), m.clamp_row(position)) == m.tile(
            m.clamp_col(position),
            m.clamp_row(position),
        ).written(glyph, color, id),
        forall|c: int, r: int|
            m.in_bounds(c, r) && !(c == m.clamp_col(position) && r == m.clamp_row(position)) ==> (
            #[trigger] m.written(position, glyph, color, id).tile(c, r)) == m.tile(c, r),
        m.drawn_on(m.written(position, glyph, color, id)),
{
    let w = m.written(position, glyph, color, id);
    let c0 = m.clamp_col(position);
    let r0 = m.clamp_row(position);
    assert(m.tiles[c0].len() == m.height());
    assert forall|c: int| 0 <= c < w.width() implies (#[trigger] w.tiles[c]).len() == w.height() by {
        assert(m.tiles[c].len() == m.height());
        assert(m.tiles[0].len() == m.height());
    }
    assert forall|c: int, r: int| m.in_bounds(c, r) implies {
        &&& (#[trigger] w.tile(c, r)).previous == m.tile(c, r).previous
        &&& m.tile(c, r).current.is_prefix_of(w.tile(c, r).current)
    } by {
        assert(m.tiles[c].len() == m.height());
    }
}

/// A grid counts as drawn on when nothing was drawn at all.
pub proof fn lemma_drawn_on_reflexive(m: MapView)
    ensures
        m.drawn_on(m),
{
}

/// Drawing on a grid that was drawn on gives a grid that was drawn on.
pub proof fn lemma_drawn_on_transitive(a: MapView, b: MapView, c: MapView)
    requires
        a.drawn_on(b),
        b.drawn_on(c),
    ensures
        a.drawn_on(c),
{
    assert forall|i: int, j: int| a.in_bounds(i, j) implies {
        &&& (#[trigger] c.tile(i, j)).previous == a.tile(i, j).previous
        &&& a.tile(i, j).current.is_prefix_of(c.tile(i, j).current)
    } by {
        assert(b.in_bounds(i, j));
        assert(b.tile(i, j).previous == a.tile(i, j).previous);
        assert(c.tile(i, j).previous == b.tile(i, j).previous);
    }
}

/// The frame boundary keeps a grid well-formed and of the same size, and
/// leaves no tile with a writer of the new frame.
pub proof fn lemma_rotated_wf(m: MapView)
    requires
        m.wf(),
    ensures
        m.rotated().wf(),
        m.rotated().width() == m.width(),
        m.rotated().height() == m.height(),
        m.rotated().fresh(),
        forall|c: int, r: int| m.in_bounds(c, r) ==> (#[trigger] m.rotated().tile(c, r)) == m.tile(c, r).rotated(),
{
    let t = m.rotated();
    assert(m.tiles[0].len() == m.height());
    assert forall|c: int| 0 <= c < t.width() implies (#[trigger] t.tiles[c]).len() == t.height() by {
        assert(m.tiles[c].len() == m.height());
    }
    assert forall|c: int, r: int| m.in_bounds(c, r) implies (#[trigger] t.tile(c, r)) == m.tile(c, r).rotated() by {
        assert(m.tiles[c].len() == m.height());
    }
}

/// Within a frame a query never sees that frame's own drawing: whatever
/// is drawn, and wherever, every query answers as before.
pub proof fn lemma_query_ignores_running_frame(m: MapView, draws: Seq<Draw>, p: (u16, u16))
    requires
        m.wf(),
    ensures
        m.drawn(draws).wf(),
        m.drawn_on(m.drawn(draws)),
        m.drawn(draws).occupants(p) == m.occupants(p),
    decreases draws.len(),
{
    if draws.len() == 0 {
        lemma_drawn_on_reflexive(m);
    } else {
        let d = draws.last();
        let before = m.drawn(draws.drop_last());
        lemma_query_ignores_running_frame(m, draws.drop_last(), p);
        lemma_write_stays_in_bounds(before, d.position, d.glyph, d.color, d.id);
        lemma_write_stays_in_bounds(before, p, d.glyph, d.color, d.id);
        lemma_drawn_on_transitive(m, before, m.drawn(draws));
        let after = m.drawn(draws);
        assert(after.clamp_col(p) == m.clamp_col(p));
        assert(after.clamp_row(p) == m.clamp_row(p));
        assert(m.in_bounds(m.clamp_col(p), m.clamp_row(p)));
        assert(after.tile(m.clamp_col(p), m.clamp_row(p)).previous == m.tile(
            m.clamp_col(p),
            m.clamp_row(p),
        ).previous);
    }
}

/// What a frame's drawing leaves on a tile: the writers that the tile had
/// before, followed by the ids of the calls that fall on it, in call order.
pub proof fn lemma_drawn_tile(m: MapView, draws: Seq<Draw>, c: int, r: int)
    requires
        m.wf(),
        m.in_bounds(c, r),
    ensures
        m.drawn(draws).wf(),
        m.drawn(draws).width() == m.width(),
        m.drawn(draws).height() == m.height(),
        m.drawn(draws).tile(c, r).current == m.tile(c, r).current + m.writers(draws, c, r),
    decreases draws.len(),
{
    reveal(Seq::filter);
    if draws.len() == 0 {
        assert(m.writers(draws, c, r) =~= Seq::<i64>::empty());
        assert(m.tile(c, r).current + m.writers(draws, c, r) =~= m.tile(c, r).current);
    } else {
        let d = draws.last();
        let rest = draws.drop_last();
        let before = m.drawn(rest);
        lemma_drawn_tile(m, rest, c, r);
        lemma_write_stays_in_bounds(before, d.position, d.glyph, d.color, d.id);
        let hit = |d: Draw| m.clamp_col(d.position) == c && m.clamp_row(d.position) == r;
        assert(before.clamp_col(d.position) == m.clamp_col(d.position));
        assert(before.clamp_row(d.position) == m.clamp_row(d.position));
        if hit(d) {
            assert(draws.filter(hit) == rest.filter(hit).push(d));
            assert(m.writers(draws, c, r) =~= m.writers(rest, c, r).push(d.id));
            assert(m.drawn(draws).tile(c, r).current =~= m.tile(c, r).current + m.writers(draws, c, r));
        } else {
            assert(draws.filter(hit) == rest.filter(hit));
            assert(m.drawn(draws).tile(c, r) == before.tile(c, r));
        }
    }
}

/// A query in one frame answers exactly with what the frame before drew:
/// when a frame starts on a grid without writers, its drawing calls are
/// made, and the frame boundary passes, then a query at any position
/// returns the ids of those calls that fell on the same tile as the
/// position, in call order.
pub proof fn lemma_query_sees_last_frame(m: MapView, draws: Seq<Draw>, p: (u16, u16))
    requires
        m.wf(),
        m.fresh(),
    ensures
        m.drawn(draws).rotated().occupants(p) == m.writers(draws, m.clamp_col(p), m.clamp_row(p)),
{
    let c = m.clamp_col(p);
    let r = m.clamp_row(p);
    lemma_drawn_tile(m, draws, c, r);
    let end = m.drawn(draws);
    lemma_rotated_wf(end);
    assert(end.rotated().clamp_col(p) == c);
    assert(end.rotated().clamp_row(p) == r);
    assert(end.rotated().tile(c, r) == end.tile(c, r).rotated());
    assert(m.tile(c, r).current =~= Seq::<i64>::empty());
    assert(m.tile(c, r).current + m.writers(draws, c, r) =~= m.writers(draws, c, r));
}

/// One cell of the map.
pub struct MapTile {
    display_character: char,
    color: Color,
    current_contents: Vec<i64>,
    previous_contents: Vec<i64>,
}

impl View for MapTile {
    type V = TileView;

    closed spec fn view(&self) -> TileView {
        TileView {
            glyph: self.display_character,
            color: self.color,
            current: self.current_contents@,
            previous: self.previous_contents@,
        }
    }
}

impl MapTile {
    /// The glyph that was drawn last on this tile.
    pub fn glyph(&self) -> (g: char)
        ensures
            g == self@.glyph,
    {
        self.display_character
    }

    /// The color of the glyph that was drawn last on this tile.
    pub fn color(&self) -> (c: Color)
        ensures
            c == self@.color,
    {
        self.color
    }

    /// The ids that drew on this tile in the running frame, in order.
    pub fn current_occupants(&self) -> (ids: &Vec<i64>)
        ensures
            ids@ == self@.current,
    {
        &self.current_contents
    }

    /// The ids that drew on this tile in the last completed frame, in order.
    pub fn previous_occupants(&self) -> (ids: &Vec<i64>)
        ensures
            ids@ == self@.previous,
    {
        &self.previous_contents
    }

    /// Whether the tile has an occupant from this frame or the last one.
    pub fn is_dirty(&self) -> (d: bool)
        ensures
            d == self@.dirty(),
    {
        !self.current_contents.is_empty() || !self.previous_contents.is_empty()
    }
}

/// A fixed grid of tiles.
pub struct TileMap {
    width: usize,
    height: usize,
    tiles: Vec<Vec<MapTile>>,
}

impl View for TileMap {
    type V = MapView;

    closed spec fn view(&self) -> MapView {
        MapView {
            tiles: Seq::new(
                self.tiles@.len(),
                |c: int| Seq::new(self.tiles@[c]@.len(), |r: int| self.tiles@[c]@[r]@),
            ),
        }
    }
}

impl TileMap {
    /// The stored sizes agree with the tiles that are there.
    pub closed spec fn consistent(&self) -> bool {
        &&& self.tiles@.len() == self.width
        &&& forall|c: int| 0 <= c < self.tiles@.len() ==> (#[trigger] self.tiles@[c])@.len() == self.height
    }

    /// The map is a well-formed grid.
    pub open spec fn wf(&self) -> bool {
        self.consistent() && self@.wf()
    }

    /// A map of `width` columns and `height` rows on which nothing was
    /// drawn yet.
    pub fn new(width: usize, height: usize) -> (m: TileMap)
        requires
            1 <= width <= u16::MAX,
            1 <= height <= u16::MAX,
        ensures
            m.wf(),
            m@ == MapView::blank(width as nat, height as nat),
    {
        let mut tiles: Vec<Vec<MapTile>> = Vec::new();
        let mut c: usize = 0;
        while c < width
            invariant
                c <= width,
                tiles@.len() == c,
                forall|i: int| 0 <= i < c ==> (#[trigger] tiles@[i])@.len() == height,
                forall|i: int, j: int|
                    0 <= i < c && 0 <= j < height ==> (#[trigger] tiles@[i]@[j])@ == TileView::initial(),
            decreases width - c,
        {
            let mut column: Vec<MapTile> = Vec::new();
            let mut r: usize = 0;
            while r < height
                invariant
                    r <= height,
                    column@.len() == r,
                    forall|j: int| 0 <= j < r ==> (#[trigger] column@[j])@ == TileView::initial(),
                decreases height - r,
            {
                column.push(
                    MapTile {
                        display_character: '#',
                        color: Color::Black,
                        current_contents: Vec::new(),
                        previous_contents: Vec::new(),
                    },
                );
                r += 1;
            }
            tiles.push(column);
            c += 1;
        }
        let m = TileMap { width, height, tiles };
        assert(m@ =~~= MapView::blank(width as nat, height as nat));
        m
    }

    /// The number of columns.
    pub fn width(&self) -> (w: usize)
        requires
            self.wf(),
        ensures
            w == self@.width(),
            1 <= w <= u16::MAX,
    {
        self.width
    }

    /// The number of rows.
    pub fn height(&self) -> (h: usize)
        requires
            self.wf(),
        ensures
            h == self@.height(),
            1 <= h <= u16::MAX,
    {
        self.height
    }

    /// The column and row that `position` names once it is clamped into
    /// the grid.
    pub fn clamp(&self, position: (u16, u16)) -> (cell: (usize, usize))
        requires
            self.wf(),
        ensures
            cell.0 == self@.clamp_col(position),
            cell.1 == self@.clamp_row(position),
            self@.in_bounds(cell.0 as int, cell.1 as int),
    {
        let c: usize = if (position.0 as usize) < self.width {
            position.0 as usize
        } else {
            self.width - 1
        };
        let r: usize = if (position.1 as usize) < self.height {
            position.1 as usize
        } else {
            self.height - 1
        };
        (c, r)
    }

    /// The tile in column `c` and row `r`.
    pub fn tile(&self, c: usize, r: usize) -> (t: &MapTile)
        requires
            self.wf(),
            self@.in_bounds(c as int, r as int),
        ensures
            t@ == self@.tile(c as int, r as int),
    {
        &self.tiles[c][r]
    }

    /// Draws `character` in `color` for the entity `id`. A position outside
    /// the grid is clamped into it first. The tile takes the new glyph and
    /// color, and `id` joins the tile's occupants of this frame.
    pub fn write(&mut self, position: (u16, u16), character: char, color: Color, id: i64)
        requires
            old(self).wf(),
        ensures
            final(self).wf(),
            final(self)@ == old(self)@.written(position, character, color, id),
            final(self)@.width() == old(self)@.width(),
            final(self)@.height() == old(self)@.height(),
    {
        let (c, r) = self.clamp(position);
        let tile = &mut self.tiles[c][r];
        tile.display_character = character;
        tile.color = color;
        tile.current_contents.push(id);
        assert(self@ =~~= old(self)@.written(position, character, color, id));
    }

    /// The ids that drew on the tile at `position` (clamped into the grid)
    /// in the last completed frame, in the order in which they drew. What
    /// was drawn in the running frame does not show here.
    pub fn query(&self, position: (u16, u16)) -> (ids: &Vec<i64>)
        requires
            self.wf(),
        ensures
            ids@ == self@.occupants(position),
    {
        let (c, r) = self.clamp(position);
        &self.tiles[c][r].previous_contents
    }

    /// The frame boundary: every tile becomes blank, and its occupants of
    /// this frame become the ones that queries see.
    pub fn clear(&mut self)
        requires
            old(self).wf(),
        ensures
            final(self).wf(),
            final(self)@ == old(self)@.rotated(),
            final(self)@.fresh(),
    {
        let mut c: usize = 0;
        while c < self.width
            invariant
                self.consistent(),
                self.width == old(self).width,
                self.height == old(self).height,
                old(self).wf(),
                c <= self.width,
                forall|i: int, j: int|
                    0 <= i < c && 0 <= j < self.height ==> (#[trigger] self.tiles@[i]@[j])@ == old(
                        self,
                    ).tiles@[i]@[j]@.rotated(),
                forall|i: int, j: int|
                    c <= i < self.width && 0 <= j < self.height ==> (#[trigger] self.tiles@[i]@[j])@
                        == old(self).tiles@[i]@[j]@,
            decreases self.width - c,
        {
            let mut r: usize = 0;
            while r < self.height
                invariant
                    self.consistent(),
                    self.width == old(self).width,
                    self.height == old(self).height,
                    old(self).wf(),
                    c < self.width,
                    r <= self.height,
                    forall|i: int, j: int|
                        0 <= i < c && 0 <= j < self.height ==> (#[trigger] self.tiles@[i]@[j])@
                            == old(self).tiles@[i]@[j]@.rotated(),
                    forall|i: int, j: int|
                        c < i < self.width && 0 <= j < self.height ==> (#[trigger] self.tiles@[i]@[j])@
                            == old(self).tiles@[i]@[j]@,
                    forall|j: int|
                        0 <= j < r ==> (#[trigger] self.tiles@[c as int]@[j])@ == old(
                            self,
                        ).tiles@[c as int]@[j]@.rotated(),
                    forall|j: int|
                        r <= j < self.height ==> (#[trigger] self.tiles@[c as int]@[j])@ == old(
                            self,
                        ).tiles@[c as int]@[j]@,
                decreases self.height - r,
            {
                let tile = &mut self.tiles[c][r];
                tile.display_character = ' ';
                tile.color = Color::Black;
                tile.previous_contents.clear();
                tile.previous_contents.append(&mut tile.current_contents);
                r += 1;
            }
            c += 1;
        }
        assert(self@ =~~= old(self)@.rotated());
    }
}

} // verus!
