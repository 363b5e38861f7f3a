//! The fixed region layout: no two live cells collide, and no gate reads
//! outside its one-row window.

use note_commit::layout::{
    coords_distinct, main_region_coords, q_canon_1_reads, q_canon_2_reads, within_window,
    y_region_coords, CellCoord,
};

#[test]
fn main_region_has_no_collisions() {
    let coords = main_region_coords();
    assert_eq!(coords.len(), 40);
    assert!(coords_distinct(&coords));
}

#[test]
fn y_region_has_no_collisions() {
    let coords = y_region_coords();
    assert_eq!(coords.len(), 10);
    assert!(coords_distinct(&coords));
    for c in 0..10u8 {
        let coord = coords[c as usize];
        assert!(coord.row <= 1);
        assert!(5 <= coord.col && coord.col <= 9);
    }
}

#[test]
fn duplicate_coordinates_are_caught() {
    let mut coords = main_region_coords();
    coords.push(CellCoord { row: 2, col: 7 });
    assert!(!coords_distinct(&coords));
}

#[test]
fn primary_gate_stays_within_its_window() {
    // The primary decomposition gate is enabled on row 1 and reads rows
    // 0 through 2.
    assert!(within_window(&q_canon_1_reads(), 1));
}

#[test]
fn secondary_gate_stays_within_its_window() {
    // The secondary canonicity gate is enabled on row 2 and reads rows 2
    // and 3.
    assert!(within_window(&q_canon_2_reads(), 2));
}

#[test]
fn y_gate_stays_within_its_window() {
    assert!(within_window(&y_region_coords(), 0));
}

#[test]
fn window_violations_are_caught() {
    // The full four-row region does not fit any single gate's window.
    assert!(!within_window(&main_region_coords(), 0));
    assert!(!within_window(&q_canon_1_reads(), 3));
}
