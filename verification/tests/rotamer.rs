//! The rotamer record as a plain value.

use dunbrack::{Rotamer, PROB_ONE};

#[test]
fn test_rotamer_copy_clone() {
    let rot = Rotamer {
        r: [1, 2],
        prob: 500_000_000,
        chi_mean: [60_000, -60_000],
        chi_sigma: [10_000, 12_000],
    };
    let copy = rot;
    let clone = rot.clone();

    assert_eq!(rot, copy);
    assert_eq!(rot, clone);
}

#[test]
fn test_rotamer_fields() {
    let rot = Rotamer {
        r: [3],
        prob: 420_000_000,
        chi_mean: [175_000],
        chi_sigma: [8_500],
    };

    assert_eq!(rot.r, [3]);
    assert_eq!(rot.prob, 420_000_000);
    assert_eq!(rot.chi_mean[0], 175_000);
    assert_eq!(rot.chi_sigma[0], 8_500);
}

#[test]
fn test_rotamer_well_formed() {
    let rot = Rotamer { r: [1, 3], prob: PROB_ONE, chi_mean: [180_000, -179_999], chi_sigma: [1, 9] };
    assert!(rot.is_well_formed());
}

#[test]
fn test_rotamer_rejects_bin_zero() {
    let rot = Rotamer { r: [1, 0], prob: 5, chi_mean: [0, 0], chi_sigma: [1, 1] };
    assert!(!rot.is_well_formed());
}

#[test]
fn test_rotamer_rejects_probability_above_one() {
    let rot = Rotamer { r: [1], prob: PROB_ONE + 1, chi_mean: [0], chi_sigma: [1] };
    assert!(!rot.is_well_formed());
}

#[test]
fn test_rotamer_rejects_mean_out_of_range() {
    let high = Rotamer { r: [1], prob: 5, chi_mean: [180_001], chi_sigma: [1] };
    let low = Rotamer { r: [1], prob: 5, chi_mean: [-180_001], chi_sigma: [1] };
    let open_end = Rotamer { r: [1], prob: 5, chi_mean: [-180_000], chi_sigma: [1] };
    assert!(!high.is_well_formed());
    assert!(!low.is_well_formed());
    assert!(!open_end.is_well_formed());
}

#[test]
fn test_rotamer_rejects_zero_spread() {
    let rot = Rotamer { r: [1, 1], prob: 5, chi_mean: [0, 0], chi_sigma: [0, 1] };
    assert!(!rot.is_well_formed());
}

#[test]
fn test_rotamer_without_angles_is_well_formed() {
    let rot: Rotamer<0> = Rotamer { r: [], prob: 7, chi_mean: [], chi_sigma: [] };
    assert!(rot.is_well_formed());
}
