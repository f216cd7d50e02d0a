//! The gallery screen's 4×3 tile grid: row-major tile indices, and the
//! column groups the grid converges through on its way back to Home's three
//! nav buttons (column 0 alone, columns 1–2, column 3 alone).

use vstd::prelude::*;

verus! {

/// Columns in the gallery grid.
pub const COLS: usize = 4;

/// Rows in the gallery grid.
pub const ROWS: usize = 3;

/// Tiles in the gallery grid.
pub const TILE_COUNT: usize = 12;

/// Row `row`'s tiles in the columns `start_col .. start_col + width`.
pub open spec fn group_row(start_col: int, width: int, row: int) -> Seq<int> {
    Seq::new(width as nat, |c: int| row * COLS + start_col + c)
}

/// Rows `0 .. rows` of a column group, row after row.
pub open spec fn group_rows(start_col: int, width: int, rows: int) -> Seq<int>
    decreases rows,
{
    if rows <= 0 {
        Seq::empty()
    } else {
        group_rows(start_col, width, rows - 1) + group_row(start_col, width, rows - 1)
    }
}

/// The tile indices, row-major, of the `width`-column-wide slice of the
/// grid starting at column `start_col`.
pub open spec fn column_group(start_col: int, width: int) -> Seq<int> {
    group_rows(start_col, width, ROWS as int)
}

/// Tile indices (row-major) for the `width`-column-wide slice of the grid
/// starting at `start_col`.
pub fn column_group_tiles(start_col: usize, width: usize) -> (r: Vec<usize>)
    requires
        start_col + width + (ROWS - 1) * COLS <= usize::MAX,
    ensures
        r@.map_values(|t: usize| t as int) == column_group(start_col as int, width as int),
{
    let mut out: Vec<usize> = Vec::new();
    let mut row: usize = 0;
    assert(out@.map_values(|t: usize| t as int) =~= group_rows(
        start_col as int,
        width as int,
        0,
    ));
    while row < ROWS
        invariant
            row <= ROWS,
            start_col + width + (ROWS - 1) * COLS <= usize::MAX,
            out@.map_values(|t: usize| t as int) == group_rows(
                start_col as int,
                width as int,
                row as int,
            ),
        decreases ROWS - row,
    {
        let ghost before = out@.map_values(|t: usize| t as int);
        let mut col: usize = start_col;
        while col < start_col + width
            invariant
                row < ROWS,
                start_col <= col <= start_col + width,
                start_col + width + (ROWS - 1) * COLS <= usize::MAX,
                out@.map_values(|t: usize| t as int) == before + group_row(
                    start_col as int,
                    width as int,
                    row as int,
                ).take(col - start_col),
            decreases start_col + width - col,
        {
            let ghost prev = out@;
            out.push(row * COLS + col);
            assert(out@.map_values(|t: usize| t as int) =~= prev.map_values(|t: usize| t as int).push(
                (row * COLS + col) as int,
            ));
            assert(group_row(start_col as int, width as int, row as int).take(col + 1 - start_col)
                =~= group_row(start_col as int, width as int, row as int).take(
                col - start_col,
            ).push((row * COLS + col) as int));
            col = col + 1;
        }
        assert(group_row(start_col as int, width as int, row as int).take(width as int)
            =~= group_row(start_col as int, width as int, row as int));
        row = row + 1;
    }
    out
}

/// Every element of a column group, by position.
proof fn lemma_column_group_index(s: int, w: int)
    requires
        0 <= w,
    ensures
        column_group(s, w).len() == 3 * w,
        forall|k: int| 0 <= k < w ==> #[trigger] column_group(s, w)[k] == s + k,
        forall|k: int| w <= k < 2 * w ==> #[trigger] column_group(s, w)[k] == 4 + s + (k - w),
        forall|k: int|
            2 * w <= k < 3 * w ==> #[trigger] column_group(s, w)[k] == 8 + s + (k - 2 * w),
{
    reveal_with_fuel(group_rows, 4);
    let g0 = group_row(s, w, 0);
    let g1 = group_row(s, w, 1);
    let g2 = group_row(s, w, 2);
    assert(group_rows(s, w, 0) =~= Seq::<int>::empty());
    assert(column_group(s, w) =~= g0 + g1 + g2);
}

/// A tile belongs to a column group within the grid exactly when it is on
/// the grid and its column is one of the group's.
pub proof fn lemma_column_group_contains(s: int, w: int, x: int)
    requires
        0 <= s,
        0 <= w,
        s + w <= COLS,
    ensures
        column_group(s, w).contains(x) <==> (0 <= x < TILE_COUNT && s <= x % 4 < s + w),
{
    lemma_column_group_index(s, w);
    let g = column_group(s, w);
    if g.contains(x) {
        let k = choose|k: int| 0 <= k < g.len() && g[k] == x;
        if k < w {
            assert(g[k] == s + k);
        } else if k < 2 * w {
            assert(g[k] == 4 + s + (k - w));
        } else {
            assert(g[k] == 8 + s + (k - 2 * w));
        }
    }
    if 0 <= x < TILE_COUNT && s <= x % 4 < s + w {
        let c = x % 4 - s;
        if x < 4 {
            assert(g[c] == x);
        } else if x < 8 {
            assert(g[w + c] == x);
        } else {
            assert(g[2 * w + c] == x);
        }
    }
}

/// Column groups of columns inside the grid list their tiles in strictly
/// increasing (row-major) order.
pub proof fn law_column_group_is_row_major(s: int, w: int)
    requires
        0 <= s,
        0 <= w,
        s + w <= COLS,
    ensures
        forall|i: int, j: int|
            0 <= i < j < column_group(s, w).len() ==> column_group(s, w)[i] < column_group(
                s,
                w,
            )[j],
{
    lemma_column_group_index(s, w);
}

/// Column groups over adjacent column ranges are disjoint, and together
/// hold exactly the tiles of the group over the joined range.
pub proof fn law_adjacent_column_groups_partition(s: int, w1: int, w2: int)
    requires
        0 <= s,
        0 <= w1,
        0 <= w2,
        s + w1 + w2 <= COLS,
    ensures
        forall|x: int|
            #[trigger] column_group(s, w1 + w2).contains(x) <==> column_group(s, w1).contains(x)
                || column_group(s + w1, w2).contains(x),
        forall|x: int|
            !(#[trigger] column_group(s, w1).contains(x) && column_group(s + w1, w2).contains(x)),
{
    assert forall|x: int|
        #[trigger] column_group(s, w1 + w2).contains(x) <==> column_group(s, w1).contains(x)
            || column_group(s + w1, w2).contains(x) by {
        lemma_column_group_contains(s, w1 + w2, x);
        lemma_column_group_contains(s, w1, x);
        lemma_column_group_contains(s + w1, w2, x);
    }
    assert forall|x: int|
        !(#[trigger] column_group(s, w1).contains(x) && column_group(s + w1, w2).contains(x)) by {
        lemma_column_group_contains(s, w1, x);
        lemma_column_group_contains(s + w1, w2, x);
    }
}

/// The group spanning every column is the whole grid in index order.
pub proof fn law_full_width_group_is_whole_grid()
    ensures
        column_group(0, COLS as int) == Seq::new(TILE_COUNT as nat, |i: int| i),
{
    lemma_column_group_index(0, 4);
    assert(column_group(0, 4) =~= Seq::new(12, |i: int| i));
}

} // verus!
