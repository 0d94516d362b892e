//! The grid of characters that fills the terminal window.

use vstd::prelude::*;
use crate::renderer::types::object::grid;

verus! {

/// The character of a cell on which nothing is drawn.
pub const BACKGROUND: char = ' ';

/// `cells` holds `width` columns of `height` characters each.
pub open spec fn is_frame(cells: Seq<Seq<char>>, width: nat, height: nat) -> bool {
    &&& cells.len() == width
    &&& forall|x: int| 0 <= x < width ==> (#[trigger] cells[x]).len() == height
}

/// The columns of a frame of the given size with nothing drawn on it.
pub(crate) fn blank_columns(width: u16, height: u16) -> (cells: Vec<Vec<char>>)
    ensures
        is_frame(grid(cells), width as nat, height as nat),
        forall|x: int, y: int|
            0 <= x < width && 0 <= y < height ==> #[trigger] grid(cells)[x][y] == BACKGROUND,
{
    let mut cells: Vec<Vec<char>> = Vec::new();
    let mut x: u16 = 0;
    while x < width
        invariant
            x <= width,
            is_frame(grid(cells), x as nat, height as nat),
            forall|i: int, j: int|
                0 <= i < x && 0 <= j < height ==> #[trigger] grid(cells)[i][j] == BACKGROUND,
        decreases width - x,
    {
        let mut column: Vec<char> = Vec::new();
        let mut y: u16 = 0;
        while y < height
            invariant
                y <= height,
                column.len() == y,
                forall|j: int| 0 <= j < y ==> column[j] == BACKGROUND,
            decreases height - y,
        {
            column.push(BACKGROUND);
            y = y + 1;
        }
        let ghost before = grid(cells);
        cells.push(column);
        assert forall|i: int| 0 <= i < x + 1 implies (#[trigger] grid(cells)[i]).len()
            == height by {
            if i < x {
                assert(grid(cells)[i] == before[i]);
            }
        }
        assert forall|i: int, j: int| 0 <= i < x + 1 && 0 <= j < height implies #[trigger] grid(
            cells,
        )[i][j] == BACKGROUND by {
            if i < x {
                assert(grid(cells)[i] == before[i]);
            }
        }
        x = x + 1;
    }
    cells
}

/// One full picture of the terminal window.
///
/// Its view is the sequence of its columns, left to right, each a sequence
/// of characters, top to bottom: the cell in column `x` and row `y` is
/// `frame@[x][y]`.
#[derive(Debug)]
pub struct Frame {
    width: u16,
    height: u16,
    cells: Vec<Vec<char>>,
}

impl View for Frame {
    type V = Seq<Seq<char>>;

    closed spec fn view(&self) -> Seq<Seq<char>> {
        grid(self.cells)
    }
}

impl Frame {
    /// Number of columns.
    pub closed spec fn spec_width(&self) -> nat {
        self.width as nat
    }

    /// Number of rows.
    pub closed spec fn spec_height(&self) -> nat {
        self.height as nat
    }

    /// A frame always has the shape that its width and height say.
    #[verifier::type_invariant]
    pub open spec fn shaped(self) -> bool {
        is_frame(self@, self.spec_width(), self.spec_height())
    }

    /// A frame of the given size with nothing drawn on it.
    pub fn blank(width: u16, height: u16) -> (frame: Frame)
        ensures
            frame.shaped(),
            frame.spec_width() == width,
            frame.spec_height() == height,
            forall|x: int, y: int|
                0 <= x < width && 0 <= y < height ==> #[trigger] frame@[x][y] == BACKGROUND,
    {
        Frame::from_columns(blank_columns(width, height), width, height)
    }

    /// The frame that has the given columns.
    pub(crate) fn from_columns(cells: Vec<Vec<char>>, width: u16, height: u16) -> (frame: Frame)
        requires
            is_frame(grid(cells), width as nat, height as nat),
        ensures
            frame.shaped(),
            frame.spec_width() == width,
            frame.spec_height() == height,
            frame@ == grid(cells),
    {
        Frame { width, height, cells }
    }

    /// The columns of the frame, left to right.
    pub(crate) fn columns(&self) -> (cells: &Vec<Vec<char>>)
        ensures
            grid(*cells) == self@,
            self.shaped(),
    {
        proof {
            use_type_invariant(self);
        }
        &self.cells
    }

    /// Number of columns.
    pub fn width(&self) -> (w: u16)
        ensures
            w == self.spec_width(),
    {
        self.width
    }

    /// Number of rows.
    pub fn height(&self) -> (h: u16)
        ensures
            h == self.spec_height(),
    {
        self.height
    }

    /// The character in column `x` and row `y`, if the frame has such a cell.
    pub fn get(&self, x: u16, y: u16) -> (c: Option<char>)
        ensures
            c == (if x < self.spec_width() && y < self.spec_height() {
                Some(self@[x as int][y as int])
            } else {
                None
            }),
    {
        proof {
            use_type_invariant(self);
        }
        if x < self.width && y < self.height {
            assert(grid(self.cells)[x as int] == self.cells[x as int]@);
            Some(self.cells[x as usize][y as usize])
        } else {
            None
        }
    }
}

} // verus!
