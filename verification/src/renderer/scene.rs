//! What a scene looks like: which character each cell of the frame shows.
//!
//! A scene is a list of sprites, each with the place of its top-left cell.
//! The sprites are drawn one after the other, so a later sprite hides an
//! earlier one wherever both draw. A cell of a sprite that holds its
//! transparent character draws nothing, and neither does a cell that falls
//! outside the frame.

use vstd::prelude::*;
use crate::renderer::types::frame::{blank_columns, is_frame, Frame, BACKGROUND};
use crate::renderer::types::object::{grid, Location, Representation, Sprite};

verus! {

/// A sprite together with the frame cell of its top-left corner.
pub struct Placed {
    pub at: Location,
    pub sprite: Sprite,
}

impl Placed {
    /// The row of the sprite that lands on row `y` of the frame.
    pub open spec fn row_on(self, y: int) -> int {
        y - self.at.y
    }

    /// The column of the sprite that lands on column `x` of the frame.
    pub open spec fn col_on(self, x: int) -> int {
        x - self.at.x
    }

    /// The sprite draws on the cell in column `x` and row `y`: the cell
    /// lies under the sprite, and the sprite is not transparent there.
    pub open spec fn covers(self, x: int, y: int) -> bool {
        self.sprite.opaque_at(self.row_on(y), self.col_on(x))
    }

    /// The character of the sprite that lands on column `x` and row `y`.
    pub open spec fn glyph(self, x: int, y: int) -> char {
        self.sprite.cells[self.row_on(y)][self.col_on(x)]
    }

    /// The sprite is nowhere transparent.
    pub open spec fn solid(self) -> bool {
        forall|row: int, col: int| #[trigger]
            self.sprite.contains(row, col) ==> self.sprite.opaque_at(row, col)
    }

    /// The cell in column `x` and row `y` lies under the sprite.
    pub open spec fn spans(self, x: int, y: int) -> bool {
        self.sprite.contains(self.row_on(y), self.col_on(x))
    }

    /// No cell of a frame of the given size lies under the sprite.
    pub open spec fn out_of_sight(self, width: nat, height: nat) -> bool {
        forall|x: int, y: int| 0 <= x < width && 0 <= y < height ==> !#[trigger] self.spans(x, y)
    }
}

/// The character that the cell in column `x` and row `y` shows once the
/// whole scene is drawn: that of the last sprite that draws on the cell,
/// and the background where none does.
pub open spec fn shown(scene: Seq<Placed>, x: int, y: int) -> char
    decreases scene.len(),
{
    if scene.len() == 0 {
        BACKGROUND
    } else if scene.last().covers(x, y) {
        scene.last().glyph(x, y)
    } else {
        shown(scene.drop_last(), x, y)
    }
}

/// The frame of the given size that shows the scene, as columns.
pub open spec fn painted(scene: Seq<Placed>, width: nat, height: nat) -> Seq<Seq<char>> {
    Seq::new(width, |x: int| Seq::new(height, |y: int| shown(scene, x, y)))
}

/// The scene that a list of placed sprites stands for.
pub open spec fn scene_of(objects: Seq<(&Location, &Representation)>) -> Seq<Placed> {
    objects.map_values(|o: (&Location, &Representation)| Placed { at: *o.0, sprite: o.1@ })
}

/// A sprite that lies beyond an edge of the frame as a whole has no cell on
/// the frame.
pub proof fn lemma_beyond_an_edge_is_out_of_sight(placed: Placed, width: nat, height: nat)
    requires
        placed.at.x + placed.sprite.cols() <= 0 || placed.at.y + placed.sprite.rows() <= 0
            || placed.at.x >= width || placed.at.y >= height,
    ensures
        placed.out_of_sight(width, height),
{
}

/// A sprite of which no cell lies on the frame changes nothing, wherever it
/// stands in the scene.
pub proof fn lemma_out_of_sight_draws_nothing(scene: Seq<Placed>, k: int, width: nat, height: nat)
    requires
        0 <= k < scene.len(),
        scene[k].out_of_sight(width, height),
    ensures
        painted(scene, width, height) == painted(scene.remove(k), width, height),
{
    assert forall|x: int, y: int| 0 <= x < width && 0 <= y < height implies shown(scene, x, y)
        == shown(scene.remove(k), x, y) by {
        assert(!scene[k].spans(x, y));
        lemma_uncovered_cell_ignores_sprite(scene, k, x, y);
    }
    assert(painted(scene, width, height) =~~= painted(scene.remove(k), width, height));
}

/// A scene of one sprite of which no cell lies on the frame looks like the
/// empty scene.
pub proof fn lemma_out_of_sight_alone(placed: Placed, width: nat, height: nat)
    requires
        placed.out_of_sight(width, height),
    ensures
        painted(seq![placed], width, height) == painted(Seq::empty(), width, height),
{
    lemma_out_of_sight_draws_nothing(seq![placed], 0, width, height);
    assert(seq![placed].remove(0) =~= Seq::empty());
}

/// A cell shows the character of the last sprite in the scene that draws on
/// it, whatever was drawn before.
pub proof fn lemma_topmost_sprite_shows(scene: Seq<Placed>, k: int, x: int, y: int)
    requires
        0 <= k < scene.len(),
        scene[k].covers(x, y),
        forall|later: int| k < later < scene.len() ==> !(#[trigger] scene[later]).covers(x, y),
    ensures
        shown(scene, x, y) == scene[k].glyph(x, y),
    decreases scene.len(),
{
    if k < scene.len() - 1 {
        assert(!scene[scene.len() - 1].covers(x, y));
        lemma_topmost_sprite_shows(scene.drop_last(), k, x, y);
    }
}

/// Of two sprites without transparent cells, the one drawn second shows
/// wherever both lie.
pub proof fn lemma_second_sprite_hides_first(first: Placed, second: Placed, x: int, y: int)
    requires
        first.solid(),
        second.solid(),
        first.spans(x, y),
        second.spans(x, y),
    ensures
        shown(seq![first, second], x, y) == second.glyph(x, y),
{
    assert(second.sprite.contains(second.row_on(y), second.col_on(x)));
    lemma_topmost_sprite_shows(seq![first, second], 1, x, y);
}

/// A sprite that does not draw on a cell, because it is transparent there
/// or does not reach it, leaves what the cell shows to the other sprites,
/// wherever it stands in the scene.
pub proof fn lemma_uncovered_cell_ignores_sprite(scene: Seq<Placed>, k: int, x: int, y: int)
    requires
        0 <= k < scene.len(),
        !scene[k].covers(x, y),
    ensures
        shown(scene, x, y) == shown(scene.remove(k), x, y),
    decreases scene.len(),
{
    if k == scene.len() - 1 {
        assert(scene.remove(k) =~= scene.drop_last());
    } else {
        let rest = scene.remove(k);
        assert(rest.last() == scene.last());
        assert(rest.drop_last() =~= scene.drop_last().remove(k));
        if !scene.last().covers(x, y) {
            lemma_uncovered_cell_ignores_sprite(scene.drop_last(), k, x, y);
        }
    }
}

/// A transparent cell of a sprite never changes what the frame shows,
/// wherever the sprite stands in the scene.
pub proof fn lemma_transparent_cell_draws_nothing(scene: Seq<Placed>, k: int, x: int, y: int)
    requires
        0 <= k < scene.len(),
        scene[k].spans(x, y),
        scene[k].glyph(x, y) == scene[k].sprite.transparent,
    ensures
        shown(scene, x, y) == shown(scene.remove(k), x, y),
{
    lemma_uncovered_cell_ignores_sprite(scene, k, x, y);
}

/// Draws one sprite over what `cells` already shows.
fn stamp(cells: &mut Vec<Vec<char>>, width: u16, height: u16, at: &Location, rep: &Representation)
    requires
        is_frame(grid(*old(cells)), width as nat, height as nat),
    ensures
        is_frame(grid(*final(cells)), width as nat, height as nat),
        forall|x: int, y: int|
            0 <= x < width && 0 <= y < height ==> #[trigger] grid(*final(cells))[x][y] == ({
                let placed = Placed { at: *at, sprite: rep@ };
                if placed.covers(x, y) {
                    placed.glyph(x, y)
                } else {
                    grid(*old(cells))[x][y]
                }
            }),
{
    let ghost placed = Placed { at: *at, sprite: rep@ };
    let ghost before = grid(*cells);
    let data = rep.data();
    let rows = data.len();
    assert(grid(*data)[0] == data[0]@);
    let cols = data[0].len();
    let mut i: usize = 0;
    while i < rows
        invariant
            i <= rows,
            rows == data.len(),
            cols == rep@.cols(),
            rows == rep@.rows(),
            grid(*data) == rep@.cells,
            rep@.rectangular(),
            placed == (Placed { at: *at, sprite: rep@ }),
            is_frame(before, width as nat, height as nat),
            is_frame(grid(*cells), width as nat, height as nat),
            forall|x: int, y: int|
                0 <= x < width && 0 <= y < height ==> #[trigger] grid(*cells)[x][y] == (if placed.covers(
                    x,
                    y,
                ) && placed.row_on(y) < i {
                    placed.glyph(x, y)
                } else {
                    before[x][y]
                }),
        decreases rows - i,
    {
        assert(grid(*data)[i as int] == data[i as int]@);
        let mut j: usize = 0;
        while j < cols
            invariant
                i < rows,
                j <= cols,
                rows == data.len(),
                cols == rep@.cols(),
                rows == rep@.rows(),
                cols == data[i as int].len(),
                grid(*data) == rep@.cells,
                grid(*data)[i as int] == data[i as int]@,
                rep@.rectangular(),
                placed == (Placed { at: *at, sprite: rep@ }),
                is_frame(before, width as nat, height as nat),
                is_frame(grid(*cells), width as nat, height as nat),
                forall|x: int, y: int|
                    0 <= x < width && 0 <= y < height ==> #[trigger] grid(*cells)[x][y] == (if placed.covers(
                        x,
                        y,
                    ) && (placed.row_on(y) < i || (placed.row_on(y) == i && placed.col_on(x) < j)) {
                        placed.glyph(x, y)
                    } else {
                        before[x][y]
                    }),
            decreases cols - j,
        {
            let c = data[i][j];
            let fx: i128 = at.x as i128 + j as i128;
            let fy: i128 = at.y as i128 + i as i128;
            if c != rep.null_char() && 0 <= fx && fx < width as i128 && 0 <= fy && fy < height as i128 {
                let ghost earlier = grid(*cells);
                let ux = fx as usize;
                let uy = fy as usize;
                assert(earlier[ux as int] == cells[ux as int]@);
                cells[ux][uy] = c;
                assert forall|x: int| 0 <= x < width implies (#[trigger] grid(*cells)[x]).len()
                    == height by {
                    if x != ux {
                        assert(grid(*cells)[x] == earlier[x]);
                    }
                }
                assert forall|x: int, y: int| 0 <= x < width && 0 <= y < height implies #[trigger] grid(
                    *cells,
                )[x][y] == (if placed.covers(x, y) && (placed.row_on(y) < i || (placed.row_on(y) == i
                    && placed.col_on(x) < j + 1)) {
                    placed.glyph(x, y)
                } else {
                    before[x][y]
                }) by {
                    if x != ux {
                        assert(grid(*cells)[x] == earlier[x]);
                    }
                }
            }
            j = j + 1;
        }
        i = i + 1;
    }
}

/// Draws the scene on an empty frame of the given size.
///
/// The sprites are drawn in the order of the list. One that lies partly or
/// wholly outside the frame is clipped.
pub fn compose(objects: &Vec<(&Location, &Representation)>, width: u16, height: u16) -> (frame: Frame)
    ensures
        frame.spec_width() == width,
        frame.spec_height() == height,
        frame@ == painted(scene_of(objects@), width as nat, height as nat),
{
    let ghost scene = scene_of(objects@);
    let mut cells = blank_columns(width, height);
    let mut k: usize = 0;
    while k < objects.len()
        invariant
            k <= objects.len(),
            scene == scene_of(objects@),
            is_frame(grid(cells), width as nat, height as nat),
            forall|x: int, y: int|
                0 <= x < width && 0 <= y < height ==> #[trigger] grid(cells)[x][y] == shown(
                    scene.take(k as int),
                    x,
                    y,
                ),
        decreases objects.len() - k,
    {
        stamp(&mut cells, width, height, objects[k].0, objects[k].1);
        proof {
            let upto = scene.take(k + 1);
            assert(upto.last() == scene[k as int]);
            assert(upto.drop_last() =~= scene.take(k as int));
        }
        k = k + 1;
    }
    assert(scene.take(k as int) =~= scene);
    assert(grid(cells) =~~= painted(scene, width as nat, height as nat));
    Frame::from_columns(cells, width, height)
}

} // verus!
