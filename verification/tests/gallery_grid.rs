use proteus::gallery::{column_group_tiles, COLS, ROWS, TILE_COUNT};

/// The gallery-to-home merge's three groups — `(0,1)`, `(1,2)`, `(3,1)` —
/// must partition all 12 tiles with no overlaps and no gaps.
#[test]
fn start_gallery_to_home_groups_partition_every_tile_exactly_once() {
    let mut covered: Vec<usize> = [(0, 1), (1, 2), (3, 1)]
        .into_iter()
        .flat_map(|(start_col, width)| column_group_tiles(start_col, width))
        .collect();
    covered.sort_unstable();
    assert_eq!(covered, (0..TILE_COUNT).collect::<Vec<_>>());
}

/// Row-major order: within one group, indices increase strictly.
#[test]
fn column_group_tiles_is_row_major() {
    assert_eq!(column_group_tiles(1, 2), vec![1, 2, 5, 6, 9, 10]);
    assert_eq!(column_group_tiles(0, 1), vec![0, 4, 8]);
    assert_eq!(column_group_tiles(3, 1), vec![3, 7, 11]);
}

#[test]
fn full_width_group_is_the_whole_grid_in_order() {
    assert_eq!(column_group_tiles(0, COLS), (0..TILE_COUNT).collect::<Vec<_>>());
}

#[test]
fn empty_group_has_no_tiles() {
    assert_eq!(column_group_tiles(2, 0), Vec::<usize>::new());
}

#[test]
fn adjacent_groups_split_every_row_at_the_same_column() {
    let left = column_group_tiles(0, 2);
    let right = column_group_tiles(2, 2);
    assert_eq!(left, vec![0, 1, 4, 5, 8, 9]);
    assert_eq!(right, vec![2, 3, 6, 7, 10, 11]);
    assert_eq!(left.len() + right.len(), ROWS * COLS);
}
