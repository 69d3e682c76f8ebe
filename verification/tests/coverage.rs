//! Domain completeness: every query is answered, and every answer meets the
//! data model.

use dunbrack::{Arg, Asn, Asp, Cpr, Cyd, Cyh, Cys, Gln, Glu, His, Ile, Leu, Lys, Met, Phe, Pro, Ser, Thr, Tpr, Trp, Tyr, Val};
use dunbrack::{check_table, GridTable, Residue, Rotamer, RotamerIter, GRID_COUNT, GRID_MIN, GRID_STEP};

type Table<const N: usize, const R: usize> = [[[Rotamer<N>; R]; GRID_COUNT]; GRID_COUNT];

/// A triangle wave of period 36 grid steps, between 0 and 18.
fn tri(x: usize) -> i64 {
    ((x % 36) as i64 - 18).abs()
}

/// The angle brought back into (−180°, 180°].
fn wrap(angle: i64) -> i32 {
    let mut v = angle % 360_000;
    if v > 180_000 {
        v -= 360_000;
    } else if v <= -180_000 {
        v += 360_000;
    }
    v as i32
}

/// A made-up table of the right shape: smooth over the grid, the same at
/// −180° and +180°, with entry 1 the most probable, every cell summing to 1
/// exactly, and some means close to the seam at ±180°.
fn make_table<const N: usize, const R: usize>(seed: u64) -> Box<Table<N, R>> {
    let blank = Rotamer { r: [0u8; N], prob: 0, chi_mean: [0i32; N], chi_sigma: [0u32; N] };
    let mut rows: Vec<[[Rotamer<N>; R]; GRID_COUNT]> = Vec::with_capacity(GRID_COUNT);
    for i in 0..GRID_COUNT {
        let mut row = [[blank; R]; GRID_COUNT];
        for j in 0..GRID_COUNT {
            let mut raw = [0u64; R];
            for k in 0..R {
                raw[k] = 1_000
                    + ((k as u64 * 37 + seed) % 101) * 50
                    + 40 * tri(i + 3 * k) as u64
                    + 25 * tri(j + 5 * k) as u64;
            }
            let top = if R > 1 { 1 } else { 0 };
            let others: u64 = raw.iter().sum::<u64>() - raw[top];
            if R > 1 {
                raw[top] = (2 + seed % 3) * others;
            }
            let total: u64 = raw.iter().sum();
            let mut given: u64 = 0;
            for k in 0..R {
                let p = raw[k] * 1_000_000_000 / total;
                row[j][k].prob = p as u32;
                given += p;
            }
            row[j][top].prob += (1_000_000_000 - given) as u32;
            for k in 0..R {
                let mut digits = k;
                for c in 0..N {
                    row[j][k].r[c] = (digits % 6) as u8 + 1;
                    digits /= 6;
                    let base = -180_000
                        + ((k as i64 * 7_919 + c as i64 * 104_729 + seed as i64 * 13) % 3_600) * 100;
                    let drift = 1_500 * (tri(i + 2 * k) - 9) + 900 * (tri(j + c) - 9);
                    row[j][k].chi_mean[c] = wrap(base + drift);
                    row[j][k].chi_sigma[c] = (5_000
                        + ((k as i64 * 31 + c as i64 * 17) % 100) * 100
                        + 300 * tri(i + j + k)) as u32;
                }
            }
        }
        rows.push(row);
    }
    match rows.into_boxed_slice().try_into() {
        Ok(table) => table,
        Err(_) => unreachable!(),
    }
}

/// Loads a table that is known to be sound.
fn load<const N: usize, const R: usize>(cells: Box<Table<N, R>>) -> GridTable<N, R> {
    assert!(check_table(&*cells));
    match GridTable::new(cells) {
        Ok(table) => table,
        Err(fault) => panic!("{}", fault.message()),
    }
}

/// Smallest distance between two angles on the circle.
fn arc(a: i32, b: i32) -> i64 {
    let d = (a as i64 - b as i64).abs();
    if d > 180_000 {
        360_000 - d
    } else {
        d
    }
}

fn grid_angle(idx: usize) -> i32 {
    GRID_MIN + idx as i32 * GRID_STEP as i32
}

fn assert_well_formed<const N: usize>(rots: &[Rotamer<N>], label: &str, n_rotamers: usize) {
    assert_eq!(rots.len(), n_rotamers, "{}: expected {} rotamers, got {}", label, n_rotamers, rots.len());

    let prob_sum: i64 = rots.iter().map(|r| r.prob as i64).sum();
    assert!((prob_sum - 1_000_000_000).abs() < 100_000, "{}: prob_sum={}, expected ≈ 1.0", label, prob_sum);

    for (k, rot) in rots.iter().enumerate() {
        assert!(rot.prob <= 1_000_000_000, "{}[{}]: prob={} out of [0,1]", label, k, rot.prob);
        assert!(rot.is_well_formed());

        for i in 0..N {
            assert!(rot.chi_sigma[i] > 0, "{}[{}]: chi_sigma[{}]={} must be > 0", label, k, i, rot.chi_sigma[i]);

            assert!(rot.chi_mean[i].abs() < 360_000, "{}[{}]: chi_mean[{}]={} out of bounds", label, k, i, rot.chi_mean[i]);

            assert!(rot.r[i] >= 1, "{}[{}]: r[{}]=0 (must be 1-based)", label, k, i);
        }
    }
}

fn grid_coverage<K, const N: usize, const R: usize>(seed: u64)
where
    K: Residue<Table = GridTable<N, R>, Iter = RotamerIter<N, R>>,
{
    assert_eq!(K::N_CHI, N);
    assert_eq!(K::N_ROTAMERS, R);
    let table = load(make_table::<N, R>(seed));
    for phi_idx in 0..GRID_COUNT {
        for psi_idx in 0..GRID_COUNT {
            let phi = grid_angle(phi_idx);
            let psi = grid_angle(psi_idx);
            let rots: Vec<Rotamer<N>> = K::rotamers(&table, phi, psi).collect();
            let label = format!("{}(φ={},ψ={})", K::NAME, phi, psi);
            assert_well_formed(&rots, &label, R);
        }
    }
}

fn fuzz_no_panic<K, const N: usize, const R: usize>(seed: u64)
where
    K: Residue<Table = GridTable<N, R>, Iter = RotamerIter<N, R>>,
{
    let table = load(make_table::<N, R>(seed));
    let cases = if R > 40 { 2_000 } else { 10_000 };
    let mut state: u64 = seed.wrapping_mul(0x9e37_79b9_7f4a_7c15) | 1;
    for _ in 0..cases {
        state = state.wrapping_mul(6364136223846793005).wrapping_add(1442695040888963407);
        let phi = ((state >> 24) % 400_000) as i32 - 200_000;
        state = state.wrapping_mul(6364136223846793005).wrapping_add(1442695040888963407);
        let psi = ((state >> 24) % 400_000) as i32 - 200_000;

        let rots: Vec<Rotamer<N>> = K::rotamers(&table, phi, psi).collect();

        assert_eq!(rots.len(), R, "{}: expected {} rotamers, got {}", K::NAME, R, rots.len());

        let prob_sum: i64 = rots.iter().map(|r| r.prob as i64).sum();
        assert!((prob_sum - 1_000_000_000).abs() < 1_000_000, "{}: prob_sum={} (expected ≈ 1.0)", K::NAME, prob_sum);
        for rot in &rots {
            assert!(rot.is_well_formed());
        }
    }
}

#[test]
fn test_grid_coverage_arg() {
    grid_coverage::<Arg, 4, 75>(11);
}

#[test]
fn test_grid_coverage_asn() {
    grid_coverage::<Asn, 2, 36>(18);
}

#[test]
fn test_grid_coverage_asp() {
    grid_coverage::<Asp, 2, 18>(25);
}

#[test]
fn test_grid_coverage_cpr() {
    grid_coverage::<Cpr, 3, 2>(32);
}

#[test]
fn test_grid_coverage_cyd() {
    grid_coverage::<Cyd, 1, 3>(39);
}

#[test]
fn test_grid_coverage_cyh() {
    grid_coverage::<Cyh, 1, 3>(46);
}

#[test]
fn test_grid_coverage_cys() {
    grid_coverage::<Cys, 1, 3>(53);
}

#[test]
fn test_grid_coverage_gln() {
    grid_coverage::<Gln, 3, 108>(60);
}

#[test]
fn test_grid_coverage_glu() {
    grid_coverage::<Glu, 3, 54>(67);
}

#[test]
fn test_grid_coverage_his() {
    grid_coverage::<His, 2, 36>(74);
}

#[test]
fn test_grid_coverage_ile() {
    grid_coverage::<Ile, 2, 9>(81);
}

#[test]
fn test_grid_coverage_leu() {
    grid_coverage::<Leu, 2, 9>(88);
}

#[test]
fn test_grid_coverage_lys() {
    grid_coverage::<Lys, 4, 73>(95);
}

#[test]
fn test_grid_coverage_met() {
    grid_coverage::<Met, 3, 27>(102);
}

#[test]
fn test_grid_coverage_phe() {
    grid_coverage::<Phe, 2, 18>(109);
}

#[test]
fn test_grid_coverage_pro() {
    grid_coverage::<Pro, 3, 2>(116);
}

#[test]
fn test_grid_coverage_ser() {
    grid_coverage::<Ser, 1, 3>(123);
}

#[test]
fn test_grid_coverage_thr() {
    grid_coverage::<Thr, 1, 3>(130);
}

#[test]
fn test_grid_coverage_tpr() {
    grid_coverage::<Tpr, 3, 2>(137);
}

#[test]
fn test_grid_coverage_trp() {
    grid_coverage::<Trp, 2, 36>(144);
}

#[test]
fn test_grid_coverage_tyr() {
    grid_coverage::<Tyr, 2, 18>(151);
}

#[test]
fn test_grid_coverage_val() {
    grid_coverage::<Val, 1, 3>(158);
}

#[test]
fn test_fuzz_no_panic_arg() {
    fuzz_no_panic::<Arg, 4, 75>(11);
}

#[test]
fn test_fuzz_no_panic_asn() {
    fuzz_no_panic::<Asn, 2, 36>(18);
}

#[test]
fn test_fuzz_no_panic_asp() {
    fuzz_no_panic::<Asp, 2, 18>(25);
}

#[test]
fn test_fuzz_no_panic_cpr() {
    fuzz_no_panic::<Cpr, 3, 2>(32);
}

#[test]
fn test_fuzz_no_panic_cyd() {
    fuzz_no_panic::<Cyd, 1, 3>(39);
}

#[test]
fn test_fuzz_no_panic_cyh() {
    fuzz_no_panic::<Cyh, 1, 3>(46);
}

#[test]
fn test_fuzz_no_panic_cys() {
    fuzz_no_panic::<Cys, 1, 3>(53);
}

#[test]
fn test_fuzz_no_panic_gln() {
    fuzz_no_panic::<Gln, 3, 108>(60);
}

#[test]
fn test_fuzz_no_panic_glu() {
    fuzz_no_panic::<Glu, 3, 54>(67);
}

#[test]
fn test_fuzz_no_panic_his() {
    fuzz_no_panic::<His, 2, 36>(74);
}

#[test]
fn test_fuzz_no_panic_ile() {
    fuzz_no_panic::<Ile, 2, 9>(81);
}

#[test]
fn test_fuzz_no_panic_leu() {
    fuzz_no_panic::<Leu, 2, 9>(88);
}

#[test]
fn test_fuzz_no_panic_lys() {
    fuzz_no_panic::<Lys, 4, 73>(95);
}

#[test]
fn test_fuzz_no_panic_met() {
    fuzz_no_panic::<Met, 3, 27>(102);
}

#[test]
fn test_fuzz_no_panic_phe() {
    fuzz_no_panic::<Phe, 2, 18>(109);
}

#[test]
fn test_fuzz_no_panic_pro() {
    fuzz_no_panic::<Pro, 3, 2>(116);
}

#[test]
fn test_fuzz_no_panic_ser() {
    fuzz_no_panic::<Ser, 1, 3>(123);
}

#[test]
fn test_fuzz_no_panic_thr() {
    fuzz_no_panic::<Thr, 1, 3>(130);
}

#[test]
fn test_fuzz_no_panic_tpr() {
    fuzz_no_panic::<Tpr, 3, 2>(137);
}

#[test]
fn test_fuzz_no_panic_trp() {
    fuzz_no_panic::<Trp, 2, 36>(144);
}

#[test]
fn test_fuzz_no_panic_tyr() {
    fuzz_no_panic::<Tyr, 2, 18>(151);
}

#[test]
fn test_fuzz_no_panic_val() {
    fuzz_no_panic::<Val, 1, 3>(158);
}

#[test]
fn test_far_out_of_domain_angles() {
    let table = load(make_table::<1, 3>(5));
    let edge: Vec<Rotamer<1>> = Val::rotamers(&table, 180_000, -180_000).collect();
    let far: Vec<Rotamer<1>> = Val::rotamers(&table, i32::MAX, i32::MIN).collect();
    assert_eq!(edge, far);
    let far: Vec<Rotamer<1>> = Val::rotamers(&table, 200_000, -200_000).collect();
    assert_eq!(edge, far);
}

#[test]
fn test_check_table_accepts_a_sound_table() {
    let table = make_table::<2, 18>(3);
    assert!(check_table(&*table));
    let kept = *table;
    let loaded = GridTable::new(table);
    assert!(loaded.is_ok());
    assert!(loaded.unwrap().cells() == &kept);
}

#[test]
fn test_check_table_rejects_a_bin_out_of_order() {
    let mut table = make_table::<2, 18>(3);
    let swapped = table[20][7][4].r;
    table[20][7][4].r = table[20][7][5].r;
    table[20][7][5].r = swapped;
    assert!(!check_table(&*table));
}

#[test]
fn test_check_table_rejects_bins_that_occur_twice() {
    let mut table = make_table::<2, 18>(3);
    for i in 0..GRID_COUNT {
        for j in 0..GRID_COUNT {
            table[i][j][11].r = table[i][j][2].r;
        }
    }
    assert!(!check_table(&*table));
}

#[test]
fn test_check_table_rejects_an_empty_cell() {
    let mut table = make_table::<2, 18>(3);
    for k in 0..18 {
        table[36][36][k].prob = 0;
    }
    assert!(!check_table(&*table));
}

#[test]
fn test_check_table_rejects_a_zero_spread() {
    let mut table = make_table::<2, 18>(3);
    table[0][0][17].chi_sigma[1] = 0;
    assert!(!check_table(&*table));
}

#[test]
fn test_check_table_rejects_a_bin_zero() {
    let mut table = make_table::<1, 3>(3);
    for i in 0..GRID_COUNT {
        for j in 0..GRID_COUNT {
            table[i][j][2].r[0] = 0;
        }
    }
    assert!(!check_table(&*table));
}

#[test]
fn test_check_table_rejects_a_mean_out_of_range() {
    let mut table = make_table::<1, 3>(3);
    table[18][18][1].chi_mean[0] = 180_001;
    assert!(!check_table(&*table));
    table[18][18][1].chi_mean[0] = -180_000;
    assert!(!check_table(&*table));
    table[18][18][1].chi_mean[0] = -179_999;
    assert!(check_table(&*table));
    table[18][18][1].chi_mean[0] = 180_000;
    assert!(check_table(&*table));
}

#[test]
fn test_check_table_rejects_a_probability_above_one() {
    let mut table = make_table::<1, 3>(3);
    table[1][2][0].prob = 1_000_000_001;
    assert!(!check_table(&*table));
}

#[test]
fn test_loading_a_malformed_table_fails() {
    let mut table = make_table::<2, 18>(3);
    table[9][9][0].chi_sigma[0] = 0;
    match GridTable::new(table) {
        Ok(_) => panic!("a zero spread was accepted"),
        Err(fault) => assert_eq!(fault.message(), "malformed residue data"),
    }
}

#[test]
fn test_check_table_rejects_a_table_without_rotamers() {
    let table: Table<1, 0> = [[[]; GRID_COUNT]; GRID_COUNT];
    assert!(!check_table(&table));
}
