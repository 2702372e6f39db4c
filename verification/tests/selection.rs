use frost::selection::{GridPoint, RowRange, Selection};

fn p(row: usize, col: usize) -> GridPoint {
    GridPoint { row, col }
}

#[test]
fn single_cell_selection_yields_one_range() {
    let sel = Selection::at(p(3, 7));
    let ranges = sel.iter_row_ranges(80);
    assert_eq!(ranges, vec![RowRange { row: 3, start_col: 7, end_col: 7 }]);
}

#[test]
fn forward_drag_on_same_row() {
    let mut sel = Selection::at(p(0, 2));
    sel.extend_to(p(0, 8));
    let ranges = sel.iter_row_ranges(80);
    assert_eq!(ranges, vec![RowRange { row: 0, start_col: 2, end_col: 8 }]);
}

#[test]
fn backward_drag_reorders_endpoints() {
    let mut sel = Selection::at(p(2, 5));
    sel.extend_to(p(2, 1));
    let ranges = sel.iter_row_ranges(80);
    assert_eq!(ranges, vec![RowRange { row: 2, start_col: 1, end_col: 5 }]);
}

#[test]
fn multi_row_forward_drag_fills_intermediate_rows() {
    let mut sel = Selection::at(p(0, 70));
    sel.extend_to(p(2, 10));
    let ranges = sel.iter_row_ranges(80);
    assert_eq!(
        ranges,
        vec![
            RowRange { row: 0, start_col: 70, end_col: 79 },
            RowRange { row: 1, start_col: 0, end_col: 79 },
            RowRange { row: 2, start_col: 0, end_col: 10 },
        ]
    );
}

#[test]
fn contains_matches_iter_row_ranges() {
    let mut sel = Selection::at(p(1, 4));
    sel.extend_to(p(3, 2));
    assert!(sel.contains(1, 4));
    assert!(sel.contains(2, 0));
    assert!(sel.contains(3, 2));
    assert!(!sel.contains(1, 3));
    assert!(!sel.contains(3, 3));
    assert!(!sel.contains(0, 4));
}

#[test]
fn backward_and_forward_drags_cover_the_same_cells() {
    let mut fwd = Selection::at(p(1, 4));
    fwd.extend_to(p(3, 2));
    let mut back = Selection::at(p(3, 2));
    back.extend_to(p(1, 4));
    assert_eq!(fwd.ordered_endpoints(), back.ordered_endpoints());
    assert_eq!(fwd.iter_row_ranges(10), back.iter_row_ranges(10));
    for row in 0..5 {
        for col in 0..10 {
            assert_eq!(fwd.contains(row, col), back.contains(row, col));
        }
    }
}

#[test]
fn zero_width_grid_has_no_ranges() {
    let sel = Selection::at(p(0, 0));
    assert!(sel.iter_row_ranges(0).is_empty());
}

#[test]
fn contains_agrees_with_ranges_on_a_grid() {
    let mut sel = Selection::at(p(2, 6));
    sel.extend_to(p(0, 3));
    let ranges = sel.iter_row_ranges(8);
    for row in 0..4 {
        for col in 0..8 {
            let in_ranges = ranges.iter().any(|r| r.row == row && r.start_col <= col && col <= r.end_col);
            assert_eq!(sel.contains(row, col), in_ranges);
        }
    }
}
