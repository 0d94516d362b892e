//! The terminal writes that turn one frame into another.
//!
//! Only the cells that differ are written, one write for each, so a frame
//! that equals the one before it costs nothing.

use vstd::prelude::*;
use crate::renderer::types::frame::{is_frame, Frame};
use crate::renderer::types::object::grid;

verus! {

/// One update of the terminal: move the cursor to column `x` and row `y`,
/// then print `ch` there.
#[derive(Clone, Copy, Debug, PartialEq, Eq, Structural)]
pub struct CellWrite {
    pub x: u16,
    pub y: u16,
    pub ch: char,
}

/// The cells of column `x` of a frame with `height` rows, top to bottom.
pub open spec fn column_cells(x: int, height: nat) -> Seq<(int, int)> {
    Seq::new(height, |y: int| (x, y))
}

/// The cells of a frame in the order in which they are compared: column by
/// column from the left, each column from the top.
pub open spec fn scan_order(width: nat, height: nat) -> Seq<(int, int)> {
    Seq::new(width, |x: int| column_cells(x, height)).flatten()
}

/// The two frames show different characters in the cell `(x, y)`.
pub open spec fn differs(prev: Seq<Seq<char>>, next: Seq<Seq<char>>) -> spec_fn((int, int)) -> bool {
    |cell: (int, int)| prev[cell.0][cell.1] != next[cell.0][cell.1]
}

/// The write that makes the cell `(x, y)` of the terminal show what `next`
/// shows there.
pub open spec fn write_of(next: Seq<Seq<char>>) -> spec_fn((int, int)) -> CellWrite {
    |cell: (int, int)| CellWrite { x: cell.0 as u16, y: cell.1 as u16, ch: next[cell.0][cell.1] }
}

/// The writes that turn a terminal that shows `prev` into one that shows
/// `next`, both of the given size: one for each cell that differs, in scan
/// order.
pub open spec fn changes(
    prev: Seq<Seq<char>>,
    next: Seq<Seq<char>>,
    width: nat,
    height: nat,
) -> Seq<CellWrite> {
    scan_order(width, height).filter(differs(prev, next)).map_values(write_of(next))
}

/// The cells that come before `(x, y)` in scan order.
spec fn scanned(x: int, y: int, height: nat) -> Seq<(int, int)> {
    Seq::new(x as nat, |i: int| column_cells(i, height)).flatten() + column_cells(x, y as nat)
}

/// Before the first cell nothing is scanned.
proof fn lemma_scanned_nothing(height: nat)
    ensures
        scanned(0, 0, height) == Seq::<(int, int)>::empty(),
{
    assert(Seq::new(0, |i: int| column_cells(i, height)) =~= Seq::empty());
    assert(column_cells(0, 0) =~= Seq::empty());
    assert(scanned(0, 0, height) =~= Seq::empty());
}

/// Scanning one cell further appends that cell.
proof fn lemma_scanned_next_cell(x: int, y: int, height: nat)
    requires
        0 <= x,
        0 <= y < height,
    ensures
        scanned(x, y + 1, height) == scanned(x, y, height).push((x, y)),
{
    assert(column_cells(x, (y + 1) as nat) =~= column_cells(x, y as nat).push((x, y)));
    assert(scanned(x, y + 1, height) =~= scanned(x, y, height).push((x, y)));
}

/// A column that is scanned to its end is the start of the next column.
proof fn lemma_scanned_next_column(x: int, height: nat)
    requires
        0 <= x,
    ensures
        scanned(x, height as int, height) == scanned(x + 1, 0, height),
{
    let columns = Seq::new(x as nat, |i: int| column_cells(i, height));
    let more = Seq::new((x + 1) as nat, |i: int| column_cells(i, height));
    assert(more =~= columns.push(column_cells(x, height)));
    columns.lemma_flatten_push(column_cells(x, height));
    assert(column_cells(x + 1, 0) =~= Seq::empty());
    assert(scanned(x + 1, 0, height) =~= more.flatten());
}

/// Once every column is scanned, every cell is.
proof fn lemma_scanned_all(width: nat, height: nat)
    ensures
        scanned(width as int, 0, height) == scan_order(width, height),
{
    assert(column_cells(width as int, 0) =~= Seq::empty());
    assert(scanned(width as int, 0, height) =~= scan_order(width, height));
}

/// The cells in which two frames of the given size differ.
pub open spec fn differing_cells(
    prev: Seq<Seq<char>>,
    next: Seq<Seq<char>>,
    width: nat,
    height: nat,
) -> Set<(int, int)> {
    Set::new(
        |cell: (int, int)|
            0 <= cell.0 < width && 0 <= cell.1 < height && prev[cell.0][cell.1] != next[cell.0][cell.1],
    )
}

/// The differing cells among those that come before `(x, y)` in scan order.
spec fn differing_before(
    prev: Seq<Seq<char>>,
    next: Seq<Seq<char>>,
    width: nat,
    height: nat,
    x: int,
    y: int,
) -> Set<(int, int)> {
    Set::new(
        |cell: (int, int)|
            differing_cells(prev, next, width, height).contains(cell) && (cell.0 < x || (cell.0 == x
                && cell.1 < y)),
    )
}

/// Among the cells scanned so far, as many are kept as differ.
proof fn lemma_kept_so_far(
    prev: Seq<Seq<char>>,
    next: Seq<Seq<char>>,
    width: nat,
    height: nat,
    x: int,
    y: int,
)
    requires
        0 <= x <= width,
        0 <= y <= height,
        x == width ==> y == 0,
    ensures
        differing_before(prev, next, width, height, x, y).finite(),
        scanned(x, y, height).filter(differs(prev, next)).len() == differing_before(
            prev,
            next,
            width,
            height,
            x,
            y,
        ).len(),
    decreases x, y,
{
    let p = differs(prev, next);
    let here = differing_before(prev, next, width, height, x, y);
    if y > 0 {
        let cell = (x, y - 1);
        let earlier = differing_before(prev, next, width, height, x, y - 1);
        lemma_kept_so_far(prev, next, width, height, x, y - 1);
        lemma_scanned_next_cell(x, y - 1, height);
        scanned(x, y - 1, height).lemma_filter_push(cell, p);
        if p(cell) {
            assert(here =~= earlier.insert(cell));
        } else {
            assert(here =~= earlier);
        }
    } else if x > 0 {
        lemma_kept_so_far(prev, next, width, height, x - 1, height as int);
        lemma_scanned_next_column(x - 1, height);
        assert(here =~= differing_before(prev, next, width, height, x - 1, height as int));
    } else {
        assert(here =~= Set::empty());
        lemma_scanned_nothing(height);
        reveal(Seq::filter);
    }
}

/// There are exactly as many writes as there are cells in which the two
/// frames differ.
pub proof fn lemma_one_write_per_differing_cell(
    prev: Seq<Seq<char>>,
    next: Seq<Seq<char>>,
    width: nat,
    height: nat,
)
    ensures
        differing_cells(prev, next, width, height).finite(),
        changes(prev, next, width, height).len() == differing_cells(prev, next, width, height).len(),
{
    lemma_kept_so_far(prev, next, width, height, width as int, 0);
    lemma_scanned_all(width, height);
    assert(differing_before(prev, next, width, height, width as int, 0) =~= differing_cells(
        prev,
        next,
        width,
        height,
    ));
}

/// The cells scanned so far are those of the columns to the left and the
/// upper part of the current column.
proof fn lemma_scanned_cells(width: nat, height: nat, x: int, y: int, cell: (int, int))
    requires
        0 <= x <= width,
        0 <= y <= height,
        x == width ==> y == 0,
    ensures
        scanned(x, y, height).contains(cell) <==> 0 <= cell.0 && 0 <= cell.1 < height && (cell.0 < x
            || (cell.0 == x && cell.1 < y)),
    decreases x, y,
{
    if y > 0 {
        lemma_scanned_cells(width, height, x, y - 1, cell);
        lemma_scanned_next_cell(x, y - 1, height);
        let earlier = scanned(x, y - 1, height);
        let now = earlier.push((x, y - 1));
        if earlier.contains(cell) {
            let k = choose|k: int| 0 <= k < earlier.len() && earlier[k] == cell;
            assert(now[k] == cell);
        }
        assert(now[now.len() - 1] == (x, y - 1));
    } else if x > 0 {
        lemma_scanned_cells(width, height, x - 1, height as int, cell);
        lemma_scanned_next_column(x - 1, height);
    } else {
        lemma_scanned_nothing(height);
    }
}

/// Every write puts the character that `next` shows on a cell in which
/// the two frames differ.
pub proof fn lemma_write_is_due(
    prev: Seq<Seq<char>>,
    next: Seq<Seq<char>>,
    width: nat,
    height: nat,
    k: int,
)
    requires
        width <= u16::MAX,
        height <= u16::MAX,
        0 <= k < changes(prev, next, width, height).len(),
    ensures
        ({
            let write = changes(prev, next, width, height)[k];
            &&& differing_cells(prev, next, width, height).contains((write.x as int, write.y as int))
            &&& write.ch == next[write.x as int][write.y as int]
        }),
{
    let cells = scan_order(width, height);
    let kept = cells.filter(differs(prev, next));
    cells.lemma_filter_pred(differs(prev, next), k);
    cells.lemma_filter_contains_rev(differs(prev, next), kept[k]);
    lemma_scanned_all(width, height);
    lemma_scanned_cells(width, height, width as int, 0, kept[k]);
}

/// Every cell in which the two frames differ is written, with the
/// character that `next` shows there.
pub proof fn lemma_differing_cell_is_written(
    prev: Seq<Seq<char>>,
    next: Seq<Seq<char>>,
    width: nat,
    height: nat,
    x: int,
    y: int,
)
    requires
        differing_cells(prev, next, width, height).contains((x, y)),
    ensures
        changes(prev, next, width, height).contains(
            CellWrite { x: x as u16, y: y as u16, ch: next[x][y] },
        ),
{
    let cells = scan_order(width, height);
    let kept = cells.filter(differs(prev, next));
    lemma_scanned_all(width, height);
    lemma_scanned_cells(width, height, width as int, 0, (x, y));
    let i = choose|i: int| 0 <= i < cells.len() && cells[i] == (x, y);
    cells.lemma_filter_contains(differs(prev, next), i);
    let k = choose|k: int| 0 <= k < kept.len() && kept[k] == (x, y);
    assert(changes(prev, next, width, height)[k] == write_of(next)((x, y)));
}

/// A frame needs no write to become itself.
pub proof fn lemma_same_frame_needs_no_write(frame: Seq<Seq<char>>, width: nat, height: nat)
    ensures
        changes(frame, frame, width, height) == Seq::<CellWrite>::empty(),
{
    let kept = scan_order(width, height).filter(differs(frame, frame));
    if kept.len() > 0 {
        scan_order(width, height).lemma_filter_pred(differs(frame, frame), 0);
    }
    assert(changes(frame, frame, width, height) =~= Seq::empty());
}

/// The writes that bring a terminal showing `prev` to show `next`.
pub(crate) fn diff(prev: &Frame, next: &Frame) -> (writes: Vec<CellWrite>)
    requires
        prev.spec_width() == next.spec_width(),
        prev.spec_height() == next.spec_height(),
    ensures
        writes@ == changes(prev@, next@, next.spec_width(), next.spec_height()),
{
    let width = next.width();
    let height = next.height();
    let old_cells = prev.columns();
    let new_cells = next.columns();
    let ghost p = differs(prev@, next@);
    let ghost f = write_of(next@);
    let mut writes: Vec<CellWrite> = Vec::new();
    let mut x: u16 = 0;
    proof {
        lemma_scanned_nothing(height as nat);
        reveal(Seq::filter);
        assert(writes@ =~= scanned(0, 0, height as nat).filter(p).map_values(f));
    }
    while x < width
        invariant
            x <= width,
            width == next.spec_width(),
            height == next.spec_height(),
            is_frame(prev@, width as nat, height as nat),
            is_frame(next@, width as nat, height as nat),
            grid(*old_cells) == prev@,
            grid(*new_cells) == next@,
            p == differs(prev@, next@),
            f == write_of(next@),
            writes@ == scanned(x as int, 0, height as nat).filter(p).map_values(f),
        decreases width - x,
    {
        assert(grid(*old_cells)[x as int] == old_cells[x as int]@);
        assert(grid(*new_cells)[x as int] == new_cells[x as int]@);
        let mut y: u16 = 0;
        while y < height
            invariant
                x < width,
                y <= height,
                is_frame(prev@, width as nat, height as nat),
                is_frame(next@, width as nat, height as nat),
                grid(*old_cells) == prev@,
                grid(*new_cells) == next@,
                prev@[x as int] == old_cells[x as int]@,
                next@[x as int] == new_cells[x as int]@,
                p == differs(prev@, next@),
                f == write_of(next@),
                writes@ == scanned(x as int, y as int, height as nat).filter(p).map_values(f),
            decreases height - y,
        {
            let ghost so_far = scanned(x as int, y as int, height as nat);
            proof {
                lemma_scanned_next_cell(x as int, y as int, height as nat);
                so_far.lemma_filter_push((x as int, y as int), p);
            }
            let c = new_cells[x as usize][y as usize];
            let ghost cell = (x as int, y as int);
            assert(p(cell) == (prev@[x as int][y as int] != next@[x as int][y as int]));
            if old_cells[x as usize][y as usize] != c {
                writes.push(CellWrite { x, y, ch: c });
                assert(f(cell) == CellWrite { x, y, ch: c });
                assert(so_far.filter(p).push(cell).map_values(f) =~= so_far.filter(p).map_values(
                    f,
                ).push(f(cell)));
            }
            y = y + 1;
        }
        proof {
            lemma_scanned_next_column(x as int, height as nat);
        }
        x = x + 1;
    }
    proof {
        lemma_scanned_all(width as nat, height as nat);
    }
    writes
}

} // verus!
