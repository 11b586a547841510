//! The playing field as a grid of cells: its mathematical model, and the
//! operations on whole rows (clearing full rows, injecting penalty rows).
//!
//! A grid is a sequence of rows, top row first; a row is a sequence of
//! cells, leftmost first.

use crate::tetris::CellType;
use vstd::prelude::*;

verus! {

/// The grid that a field of vectors stands for.
pub open spec fn grid_view(field: Vec<Vec<CellType>>) -> Seq<Seq<CellType>> {
    Seq::new(field.len() as nat, |y: int| field[y]@)
}

/// The width of a grid: the length of its first row, or zero without rows.
pub open spec fn grid_width(g: Seq<Seq<CellType>>) -> int {
    if g.len() == 0 {
        0
    } else {
        g[0].len() as int
    }
}

/// Every row has the given width.
pub open spec fn rectangular(g: Seq<Seq<CellType>>, width: int) -> bool {
    forall|y: int| 0 <= y < g.len() ==> (#[trigger] g[y]).len() == width
}

/// A row of the given width in which the cell at `hole` is empty and every
/// other cell holds `fill`. With `hole` outside the row, no cell is empty.
pub open spec fn row_with_hole(width: int, fill: CellType, hole: int) -> Seq<CellType> {
    Seq::new(
        width as nat,
        |x: int|
            if x == hole {
                CellType::Empty
            } else {
                fill
            },
    )
}

/// A row of empty cells.
pub open spec fn empty_row(width: int) -> Seq<CellType> {
    Seq::new(width as nat, |x: int| CellType::Empty)
}

/// A grid of empty cells.
pub open spec fn empty_grid(width: int, height: int) -> Seq<Seq<CellType>> {
    Seq::new(height as nat, |y: int| empty_row(width))
}

/// The colour of the filled cells of a penalty row.
pub open spec fn garbage_cell() -> CellType {
    CellType::Z
}

/// A penalty row: filled but for one hole.
pub open spec fn garbage_row(width: int, hole: int) -> Seq<CellType> {
    row_with_hole(width, garbage_cell(), hole)
}

/// A row is full when it has at least one cell and none of them is empty.
pub open spec fn row_is_full(row: Seq<CellType>) -> bool {
    &&& row.len() > 0
    &&& forall|x: int| 0 <= x < row.len() ==> row[x] != CellType::Empty
}

/// The rows that are not full, in their order.
pub open spec fn kept_rows(g: Seq<Seq<CellType>>) -> Seq<Seq<CellType>> {
    g.filter(|row: Seq<CellType>| !row_is_full(row))
}

/// The number of full rows.
pub open spec fn full_row_count(g: Seq<Seq<CellType>>) -> int {
    g.len() - kept_rows(g).len()
}

/// The grid after a line clear: the full rows are gone, the rows that stay
/// have moved down past them keeping their order, and as many empty rows
/// as were removed stand at the top.
pub open spec fn clear_full_rows(g: Seq<Seq<CellType>>) -> Seq<Seq<CellType>> {
    empty_grid(grid_width(g), full_row_count(g)) + kept_rows(g)
}

/// The number of rows that an injection of `n` penalty rows replaces: `n`,
/// but no more than the grid has.
pub open spec fn injected_rows(g: Seq<Seq<CellType>>, n: int) -> int {
    if n < g.len() {
        n
    } else {
        g.len() as int
    }
}

/// The grid after `n` penalty rows came in at the bottom: every row has
/// moved up by `n`, the rows pushed over the top are lost, and the penalty
/// rows, all with the same hole, stand at the bottom.
pub open spec fn with_garbage(g: Seq<Seq<CellType>>, n: int, hole: int) -> Seq<Seq<CellType>> {
    let m = injected_rows(g, n);
    g.skip(m) + Seq::new(m as nat, |y: int| garbage_row(grid_width(g), hole))
}

/// A line clear keeps the shape of the grid and leaves no full row:
/// the number of rows and their width stay, the top rows are empty, one for
/// each full row that was removed, and below them stand exactly the rows that
/// were not full, in their old order.
pub proof fn lemma_clear_full_rows(g: Seq<Seq<CellType>>, width: int)
    requires
        rectangular(g, width),
    ensures
        clear_full_rows(g).len() == g.len(),
        rectangular(clear_full_rows(g), width),
        0 <= full_row_count(g) <= g.len(),
        forall|y: int|
            0 <= y < full_row_count(g) ==> #[trigger] clear_full_rows(g)[y] == empty_row(width),
        forall|y: int|
            full_row_count(g) <= y < g.len() ==> #[trigger] clear_full_rows(g)[y] == kept_rows(
                g,
            )[y - full_row_count(g)],
        forall|y: int| 0 <= y < g.len() ==> !row_is_full(#[trigger] clear_full_rows(g)[y]),
        full_row_count(g) == 0 ==> clear_full_rows(g) == g,
{
    let pred = |row: Seq<CellType>| !row_is_full(row);
    let kept = kept_rows(g);
    let count = full_row_count(g);
    g.lemma_filter_len(pred);
    let cleared = clear_full_rows(g);
    assert forall|i: int| 0 <= i < kept.len() implies (#[trigger] kept[i]).len() == width
        && !row_is_full(kept[i]) by {
        g.lemma_filter_pred(pred, i);
        g.lemma_filter_contains_rev(pred, kept[i]);
    }
    assert forall|y: int| 0 <= y < g.len() implies !row_is_full(#[trigger] cleared[y]) by {
        if y < count {
            assert(cleared[y] == empty_row(grid_width(g)));
            if grid_width(g) > 0 {
                assert(cleared[y][0] == CellType::Empty);
            }
        } else {
            assert(cleared[y] == kept[y - count]);
        }
    }
    assert forall|y: int| 0 <= y < cleared.len() implies (#[trigger] cleared[y]).len()
        == width by {
        if y < count {
            assert(g.len() > 0);
            assert(g[0].len() == width);
        } else {
            assert(cleared[y] == kept[y - count]);
        }
    }
    if count == 0 {
        lemma_filter_keeps_all(g, pred);
        assert(cleared =~= g);
    }
}

/// A grid has no full row exactly if a line clear finds none to remove,
/// and then the line clear leaves the grid as it is.
pub proof fn lemma_no_full_rows(g: Seq<Seq<CellType>>)
    ensures
        (forall|y: int| 0 <= y < g.len() ==> !row_is_full(#[trigger] g[y])) <==> full_row_count(g)
            == 0,
        full_row_count(g) == 0 ==> clear_full_rows(g) == g,
    decreases g.len(),
{
    let pred = |row: Seq<CellType>| !row_is_full(row);
    reveal(Seq::filter);
    g.lemma_filter_len(pred);
    if g.len() > 0 {
        let front = g.drop_last();
        lemma_no_full_rows(front);
        front.lemma_filter_len(pred);
        if full_row_count(g) == 0 {
            assert forall|y: int| 0 <= y < g.len() implies !row_is_full(#[trigger] g[y]) by {
                if y < g.len() - 1 {
                    assert(front[y] == g[y]);
                }
            }
        }
        if forall|y: int| 0 <= y < g.len() ==> !row_is_full(#[trigger] g[y]) {
            assert forall|y: int| 0 <= y < front.len() implies !row_is_full(
                #[trigger] front[y],
            ) by {
                assert(front[y] == g[y]);
            }
            assert(pred(g.last()));
        }
    }
    if full_row_count(g) == 0 {
        lemma_filter_keeps_all(g, pred);
        assert(clear_full_rows(g) =~= g);
    }
}

/// A filter that drops nothing returns the sequence itself.
proof fn lemma_filter_keeps_all<A>(s: Seq<A>, pred: spec_fn(A) -> bool)
    requires
        s.filter(pred).len() == s.len(),
    ensures
        s.filter(pred) == s,
    decreases s.len(),
{
    reveal(Seq::filter);
    if s.len() > 0 {
        s.drop_last().lemma_filter_len(pred);
        lemma_filter_keeps_all(s.drop_last(), pred);
        assert(s.drop_last().push(s.last()) =~= s);
    }
}

/// An injection of penalty rows keeps the shape of the grid; the rows that
/// were not pushed over the top have moved up, and the new rows at the
/// bottom are never full.
pub proof fn lemma_with_garbage(g: Seq<Seq<CellType>>, width: int, n: int, hole: int)
    requires
        rectangular(g, width),
        0 <= n,
    ensures
        with_garbage(g, n, hole).len() == g.len(),
        rectangular(with_garbage(g, n, hole), width),
        forall|y: int|
            0 <= y < g.len() - injected_rows(g, n) ==> #[trigger] with_garbage(g, n, hole)[y]
                == g[y + injected_rows(g, n)],
        forall|y: int|
            g.len() - injected_rows(g, n) <= y < g.len() ==> #[trigger] with_garbage(
                g,
                n,
                hole,
            )[y] == garbage_row(width, hole),
        0 <= hole < width ==> !row_is_full(garbage_row(width, hole)),
{
    let out = with_garbage(g, n, hole);
    let m = injected_rows(g, n);
    assert forall|y: int| 0 <= y < out.len() implies (#[trigger] out[y]).len() == width by {
        if y < g.len() - m {
            assert(out[y] == g[y + m]);
        } else {
            assert(g[0].len() == width);
        }
    }
    if g.len() > 0 {
        assert(g[0].len() == width);
    }
    if 0 <= hole < width {
        assert(garbage_row(width, hole)[hole] == CellType::Empty);
    }
}

/// A fresh row in which the cell at `hole` is empty and all others hold
/// `fill`.
pub fn make_row(width: usize, fill: CellType, hole: usize) -> (row: Vec<CellType>)
    ensures
        row@ == row_with_hole(width as int, fill, hole as int),
{
    let mut row: Vec<CellType> = Vec::new();
    let mut x: usize = 0;
    while x < width
        invariant
            x <= width,
            row@ == row_with_hole(x as int, fill, hole as int),
        decreases width - x,
    {
        if x == hole {
            row.push(CellType::Empty);
        } else {
            row.push(fill);
        }
        x += 1;
        assert(row@ =~= row_with_hole(x as int, fill, hole as int));
    }
    row
}

/// A fresh row of empty cells.
pub fn make_empty_row(width: usize) -> (row: Vec<CellType>)
    ensures
        row@ == empty_row(width as int),
{
    let row = make_row(width, CellType::Empty, 0);
    assert(row@ =~= empty_row(width as int));
    row
}

/// A fresh field of empty cells, `height` rows of `width` cells.
pub fn new_field(width: usize, height: usize) -> (field: Vec<Vec<CellType>>)
    ensures
        grid_view(field) == empty_grid(width as int, height as int),
{
    let mut field: Vec<Vec<CellType>> = Vec::new();
    let mut y: usize = 0;
    while y < height
        invariant
            y <= height,
            grid_view(field) == empty_grid(width as int, y as int),
        decreases height - y,
    {
        let ghost before = grid_view(field);
        let row = make_empty_row(width);
        field.push(row);
        y += 1;
        assert(grid_view(field) =~= before.push(empty_row(width as int)));
        assert(grid_view(field) =~= empty_grid(width as int, y as int));
    }
    field
}

/// A copy of a row.
pub fn copy_row(row: &Vec<CellType>) -> (copy: Vec<CellType>)
    ensures
        copy@ == row@,
{
    let mut copy: Vec<CellType> = Vec::new();
    let mut x: usize = 0;
    while x < row.len()
        invariant
            x <= row.len(),
            copy@ == row@.take(x as int),
        decreases row.len() - x,
    {
        copy.push(row[x]);
        x += 1;
        assert(copy@ =~= row@.take(x as int));
    }
    assert(row@.take(row.len() as int) =~= row@);
    copy
}

/// A copy of a field.
pub fn copy_field(field: &Vec<Vec<CellType>>) -> (copy: Vec<Vec<CellType>>)
    ensures
        grid_view(copy) == grid_view(*field),
{
    let mut copy: Vec<Vec<CellType>> = Vec::new();
    let mut y: usize = 0;
    while y < field.len()
        invariant
            y <= field.len(),
            grid_view(copy) == grid_view(*field).take(y as int),
        decreases field.len() - y,
    {
        let ghost before = grid_view(copy);
        let row = copy_row(&field[y]);
        copy.push(row);
        assert(grid_view(copy) =~= before.push(grid_view(*field)[y as int]));
        y += 1;
        assert(grid_view(copy) =~= grid_view(*field).take(y as int));
    }
    assert(grid_view(*field).take(field.len() as int) =~= grid_view(*field));
    copy
}

/// Whether a row is full.
pub fn is_full_row(row: &Vec<CellType>) -> (full: bool)
    ensures
        full == row_is_full(row@),
{
    if row.len() == 0 {
        return false;
    }
    let mut x: usize = 0;
    while x < row.len()
        invariant
            x <= row.len(),
            forall|i: int| 0 <= i < x ==> row@[i] != CellType::Empty,
        decreases row.len() - x,
    {
        if row[x] == CellType::Empty {
            return false;
        }
        x += 1;
    }
    true
}

/// Clears the full rows of a field and returns how many there were.
pub fn remove_full_rows(field: &mut Vec<Vec<CellType>>) -> (count: usize)
    ensures
        grid_view(*final(field)) == clear_full_rows(grid_view(*old(field))),
        count == full_row_count(grid_view(*old(field))),
{
    let ghost g = grid_view(*field);
    let ghost pred = |row: Seq<CellType>| !row_is_full(row);
    let height = field.len();
    let width = if height == 0 {
        0
    } else {
        field[0].len()
    };
    let mut kept: Vec<Vec<CellType>> = Vec::new();
    let mut y: usize = 0;
    proof {
        reveal(Seq::filter);
        assert(g.take(0).filter(pred) =~= Seq::<Seq<CellType>>::empty());
    }
    while y < height
        invariant
            y <= height,
            height == field.len(),
            g == grid_view(*field),
            pred == (|row: Seq<CellType>| !row_is_full(row)),
            grid_view(kept) == g.take(y as int).filter(pred),
        decreases height - y,
    {
        proof {
            g.take(y as int).lemma_filter_push(g[y as int], pred);
            assert(g.take(y as int + 1) =~= g.take(y as int).push(g[y as int]));
        }
        let ghost before = grid_view(kept);
        if !is_full_row(&field[y]) {
            let row = copy_row(&field[y]);
            kept.push(row);
            assert(grid_view(kept) =~= before.push(g[y as int]));
        }
        y += 1;
    }
    proof {
        assert(g.take(height as int) =~= g);
        g.lemma_filter_len(pred);
    }
    let count = height - kept.len();
    let mut cleared: Vec<Vec<CellType>> = Vec::new();
    let mut i: usize = 0;
    while i < count
        invariant
            i <= count,
            grid_view(cleared) == empty_grid(width as int, i as int),
        decreases count - i,
    {
        let ghost before = grid_view(cleared);
        let row = make_empty_row(width);
        cleared.push(row);
        i += 1;
        assert(grid_view(cleared) =~= before.push(empty_row(width as int)));
        assert(grid_view(cleared) =~= empty_grid(width as int, i as int));
    }
    let ghost top = grid_view(cleared);
    let ghost bottom = grid_view(kept);
    cleared.append(&mut kept);
    assert(grid_view(cleared) =~= top + bottom);
    *field = cleared;
    count
}

/// Pushes `n` penalty rows, each with its hole at `hole`, into the field
/// from below.
pub fn push_garbage_rows(field: &mut Vec<Vec<CellType>>, n: usize, hole: usize)
    ensures
        grid_view(*final(field)) == with_garbage(grid_view(*old(field)), n as int, hole as int),
{
    let ghost g = grid_view(*field);
    let height = field.len();
    let width = if height == 0 {
        0
    } else {
        field[0].len()
    };
    let m = if n < height {
        n
    } else {
        height
    };
    let mut pushed: Vec<Vec<CellType>> = Vec::new();
    let mut y: usize = m;
    while y < height
        invariant
            m <= y <= height,
            height == field.len(),
            g == grid_view(*field),
            grid_view(pushed) == g.subrange(m as int, y as int),
        decreases height - y,
    {
        let ghost before = grid_view(pushed);
        let row = copy_row(&field[y]);
        pushed.push(row);
        assert(grid_view(pushed) =~= before.push(g[y as int]));
        y += 1;
        assert(grid_view(pushed) =~= g.subrange(m as int, y as int));
    }
    let mut i: usize = 0;
    while i < m
        invariant
            i <= m,
            m <= height,
            height == g.len(),
            grid_view(pushed) == g.skip(m as int) + Seq::new(
                i as nat,
                |y: int| garbage_row(width as int, hole as int),
            ),
        decreases m - i,
    {
        let ghost before = grid_view(pushed);
        let row = make_row(width, CellType::Z, hole);
        pushed.push(row);
        i += 1;
        assert(grid_view(pushed) =~= before.push(garbage_row(width as int, hole as int)));
        assert(grid_view(pushed) =~= g.skip(m as int) + Seq::new(
            i as nat,
            |y: int| garbage_row(width as int, hole as int),
        ));
    }
    *field = pushed;
}

} // verus!
