//! The structural pieces of the TSP construction: working length,
//! conjugate-symmetry fill order, rotation and truncation.

use sigen::processing::gen::{
    conjugate_pairs, finalize_tsp, rotate_left, rotate_right, tsp_shift_exec, tsp_working_length,
};

#[test]
fn working_length_is_the_next_power_of_two_past_double() {
    assert_eq!(tsp_working_length(1), 2);
    assert_eq!(tsp_working_length(2), 4);
    assert_eq!(tsp_working_length(3), 8);
    assert_eq!(tsp_working_length(44100), 131072);
    assert_eq!(tsp_working_length(65536), 131072);
    assert_eq!(tsp_working_length(65537), 262144);
}

#[test]
fn shift_is_three_quarters() {
    assert_eq!(tsp_shift_exec(8), 6);
    assert_eq!(tsp_shift_exec(131072), 98304);
}

#[test]
fn conjugate_pairs_mirror_the_lower_half() {
    let pairs = conjugate_pairs(8);
    assert_eq!(pairs, vec![(7, 1), (6, 2), (5, 3)]);
    for &(dst, src) in &pairs {
        assert_eq!(dst + src, 8);
        assert!(src >= 1 && src < 4);
        assert!(dst > 4 && dst < 8);
    }
    assert_eq!(conjugate_pairs(2), vec![]);
}

#[test]
fn rotation_moves_and_keeps_every_sample() {
    let v: Vec<i64> = vec![10, 20, 30, 40, 50];
    assert_eq!(rotate_right(&v, 2), vec![40, 50, 10, 20, 30]);
    assert_eq!(rotate_left(&v, 2), vec![30, 40, 50, 10, 20]);
    assert_eq!(rotate_right(&v, 0), v);
    assert_eq!(rotate_left(&v, 5), v);
    // a rotation one way undoes the other
    assert_eq!(rotate_left(&rotate_right(&v, 3), 3), v);
}

#[test]
fn finalize_rotates_by_three_quarters_then_truncates() {
    let raw: Vec<i64> = (0..8).collect();
    // shift = 6; rotated right: [2,3,4,5,6,7,0,1]
    assert_eq!(finalize_tsp(&raw, true, 4), vec![2, 3, 4, 5]);
    // rotated left: [6,7,0,1,2,3,4,5]
    assert_eq!(finalize_tsp(&raw, false, 4), vec![6, 7, 0, 1]);
    assert_eq!(finalize_tsp(&raw, true, 8).len(), 8);
    assert_eq!(finalize_tsp(&raw, true, 0), vec![]);
}
