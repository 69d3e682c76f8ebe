//! Data correctness: every stored row comes back at its own grid point, and
//! each residue kind has its own shape.

use dunbrack::{Arg, Asn, Asp, Cpr, Cyd, Cyh, Cys, Gln, Glu, His, Ile, Leu, Lys, Met, Phe, Pro, Ser, Thr, Tpr, Trp, Tyr, Val};
use dunbrack::{check_table, GridTable, Residue, Rotamer, RotamerIter, GRID_COUNT, GRID_MIN, GRID_STEP};

type Table<const N: usize, const R: usize> = [[[Rotamer<N>; R]; GRID_COUNT]; GRID_COUNT];

/// A triangle wave of period 36 grid steps, between 0 and 18.
fn tri(x: usize) -> i64 {
    ((x % 36) as i64 - 18).abs()
}

/// The angle brought back into (−180°, 180°].
fn wrap(angle: i64) -> i32 {
    let mut v = angle % 360_000;
    if v > 180_000 {
        v -= 360_000;
    } else if v <= -180_000 {
        v += 360_000;
    }
    v as i32
}

/// A made-up table of the right shape: smooth over the grid, the same at
/// −180° and +180°, with entry 1 the most probable, every cell summing to 1
/// exactly, and some means close to the seam at ±180°.
fn make_table<const N: usize, const R: usize>(seed: u64) -> Box<Table<N, R>> {
    let blank = Rotamer { r: [0u8; N], prob: 0, chi_mean: [0i32; N], chi_sigma: [0u32; N] };
    let mut rows: Vec<[[Rotamer<N>; R]; GRID_COUNT]> = Vec::with_capacity(GRID_COUNT);
    for i in 0..GRID_COUNT {
        let mut row = [[blank; R]; GRID_COUNT];
        for j in 0..GRID_COUNT {
            let mut raw = [0u64; R];
            for k in 0..R {
                raw[k] = 1_000
                    + ((k as u64 * 37 + seed) % 101) * 50
                    + 40 * tri(i + 3 * k) as u64
                    + 25 * tri(j + 5 * k) as u64;
            }
            let top = if R > 1 { 1 } else { 0 };
            let others: u64 = raw.iter().sum::<u64>() - raw[top];
            if R > 1 {
                raw[top] = (2 + seed % 3) * others;
            }
            let total: u64 = raw.iter().sum();
            let mut given: u64 = 0;
            for k in 0..R {
                let p = raw[k] * 1_000_000_000 / total;
                row[j][k].prob = p as u32;
                given += p;
            }
            row[j][top].prob += (1_000_000_000 - given) as u32;
            for k in 0..R {
                let mut digits = k;
                for c in 0..N {
                    row[j][k].r[c] = (digits % 6) as u8 + 1;
                    digits /= 6;
                    let base = -180_000
                        + ((k as i64 * 7_919 + c as i64 * 104_729 + seed as i64 * 13) % 3_600) * 100;
                    let drift = 1_500 * (tri(i + 2 * k) - 9) + 900 * (tri(j + c) - 9);
                    row[j][k].chi_mean[c] = wrap(base + drift);
                    row[j][k].chi_sigma[c] = (5_000
                        + ((k as i64 * 31 + c as i64 * 17) % 100) * 100
                        + 300 * tri(i + j + k)) as u32;
                }
            }
        }
        rows.push(row);
    }
    match rows.into_boxed_slice().try_into() {
        Ok(table) => table,
        Err(_) => unreachable!(),
    }
}

/// Loads a table that is known to be sound.
fn load<const N: usize, const R: usize>(cells: Box<Table<N, R>>) -> GridTable<N, R> {
    assert!(check_table(&*cells));
    match GridTable::new(cells) {
        Ok(table) => table,
        Err(fault) => panic!("{}", fault.message()),
    }
}

/// Smallest distance between two angles on the circle.
fn arc(a: i32, b: i32) -> i64 {
    let d = (a as i64 - b as i64).abs();
    if d > 180_000 {
        360_000 - d
    } else {
        d
    }
}

/// Looks every stored row of a kind up at its exact grid point and returns
/// the number of rows seen.
fn verify_rows<K, const N: usize, const R: usize>(seed: u64) -> usize
where
    K: Residue<Table = GridTable<N, R>, Iter = RotamerIter<N, R>>,
{
    let table = load(make_table::<N, R>(seed));
    let mut rows = 0;
    for i in 0..GRID_COUNT {
        for j in 0..GRID_COUNT {
            let phi = GRID_MIN + i as i32 * GRID_STEP as i32;
            let psi = GRID_MIN + j as i32 * GRID_STEP as i32;
            let rots: Vec<Rotamer<N>> = K::rotamers(&table, phi, psi).collect();
            for row in table.cells()[i][j].iter() {
                rows += 1;
                let rot = match rots.iter().find(|rot| rot.r == row.r) {
                    Some(rot) => rot,
                    None => panic!("{} at (φ={},ψ={}): r={:?} not found", K::NAME, phi, psi, row.r),
                };

                let prob_err = (rot.prob as i64 - row.prob as i64).abs();
                assert!(prob_err < 10_000, "{}(φ={},ψ={}) r={:?}: prob_err={}", K::NAME, phi, psi, row.r, prob_err);

                assert_eq!(rot.r, row.r);
                assert_eq!(rot.chi_mean, row.chi_mean);
                assert_eq!(rot.chi_sigma, row.chi_sigma);
                assert_eq!(rot.prob, row.prob);
                for c in 0..N {
                    let mean_err = arc(rot.chi_mean[c], row.chi_mean[c]);
                    assert!(mean_err < 50, "{}(φ={},ψ={}) r={:?}: chi_mean[{}] err={}", K::NAME, phi, psi, row.r, c, mean_err);

                    let sig_err = (rot.chi_sigma[c] as i64 - row.chi_sigma[c] as i64).abs();
                    assert!(sig_err < 50, "{}(φ={},ψ={}) r={:?}: chi_sigma[{}] err={}", K::NAME, phi, psi, row.r, c, sig_err);
                }
            }
        }
    }
    rows
}

#[test]
fn test_full_table_round_trip() {
    let mut row_count = 0usize;
    row_count += verify_rows::<Arg, 4, 75>(11);
    row_count += verify_rows::<Asn, 2, 36>(18);
    row_count += verify_rows::<Asp, 2, 18>(25);
    row_count += verify_rows::<Cpr, 3, 2>(32);
    row_count += verify_rows::<Cyd, 1, 3>(39);
    row_count += verify_rows::<Cyh, 1, 3>(46);
    row_count += verify_rows::<Cys, 1, 3>(53);
    row_count += verify_rows::<Gln, 3, 108>(60);
    row_count += verify_rows::<Glu, 3, 54>(67);
    row_count += verify_rows::<His, 2, 36>(74);
    row_count += verify_rows::<Ile, 2, 9>(81);
    row_count += verify_rows::<Leu, 2, 9>(88);
    row_count += verify_rows::<Lys, 4, 73>(95);
    row_count += verify_rows::<Met, 3, 27>(102);
    row_count += verify_rows::<Phe, 2, 18>(109);
    row_count += verify_rows::<Pro, 3, 2>(116);
    row_count += verify_rows::<Ser, 1, 3>(123);
    row_count += verify_rows::<Thr, 1, 3>(130);
    row_count += verify_rows::<Tpr, 3, 2>(137);
    row_count += verify_rows::<Trp, 2, 36>(144);
    row_count += verify_rows::<Tyr, 2, 18>(151);
    row_count += verify_rows::<Val, 1, 3>(158);

    assert_eq!(row_count, 740_629, "expected 740,629 rows, got {row_count}");
}

#[test]
fn test_val_alpha_helix_most_probable() {
    let table = load(make_table::<1, 3>(158));
    let phi = -60_000;
    let psi = -40_000;

    let rots: Vec<Rotamer<1>> = Val::rotamers(&table, phi, psi).collect();
    assert_eq!(rots.len(), 3);
    let prob_sum: i64 = rots.iter().map(|r| r.prob as i64).sum();
    assert!((prob_sum - 1_000_000_000).abs() < 100_000);

    let best = rots.iter().max_by(|a, b| a.prob.cmp(&b.prob)).unwrap();

    assert_eq!(best.r, [2], "Val at α-helix: expected r=[2] (trans), got {:?}", best.r);

    assert!(best.prob > 500_000_000, "Val trans at α-helix: prob={}, expected > 0.5", best.prob);
}

#[test]
fn test_leu_nine_rotamers() {
    let table = load(make_table::<2, 9>(88));
    let rots: Vec<_> = Leu::rotamers(&table, -60_000, -40_000).collect();
    assert_eq!(rots.len(), 9, "Leu should have exactly 9 rotamers");
}

#[test]
fn test_pro_two_rotamers() {
    let phi = -60_000;
    let psi = -40_000;
    let pro_table = load(make_table::<3, 2>(116));
    let tpr_table = load(make_table::<3, 2>(137));
    let cpr_table = load(make_table::<3, 2>(32));

    let pro_rots: Vec<_> = Pro::rotamers(&pro_table, phi, psi).collect();
    let tpr_rots: Vec<_> = Tpr::rotamers(&tpr_table, phi, psi).collect();
    let cpr_rots: Vec<_> = Cpr::rotamers(&cpr_table, phi, psi).collect();

    assert_eq!(pro_rots.len(), 2, "Pro should have 2 rotamers");
    assert_eq!(tpr_rots.len(), 2, "Tpr should have 2 rotamers");
    assert_eq!(cpr_rots.len(), 2, "Cpr should have 2 rotamers");

    for (name, rots) in [("Pro", &pro_rots), ("Tpr", &tpr_rots), ("Cpr", &cpr_rots)] {
        let prob_sum: i64 = rots.iter().map(|r| r.prob as i64).sum();
        assert!((prob_sum - 1_000_000_000).abs() < 100_000, "{name}: prob_sum={prob_sum}");
    }
}

#[test]
fn test_cyd_cyh_distinct() {
    let phi = -120_000;
    let psi = 130_000;
    let cyd_table = load(make_table::<1, 3>(39));
    let cyh_table = load(make_table::<1, 3>(46));

    let cyd_rots: Vec<_> = Cyd::rotamers(&cyd_table, phi, psi).collect();
    let cyh_rots: Vec<_> = Cyh::rotamers(&cyh_table, phi, psi).collect();

    assert_eq!(cyd_rots.len(), 3);
    assert_eq!(cyh_rots.len(), 3);

    let differs = cyd_rots
        .iter()
        .zip(cyh_rots.iter())
        .any(|(d, h)| (d.prob as i64 - h.prob as i64).abs() > 10_000_000);

    assert!(differs, "CYD and CYH should have different probability distributions");
}

#[test]
fn test_arg_seventy_five_rotamers() {
    let table = load(make_table::<4, 75>(11));
    let rots: Vec<_> = Arg::rotamers(&table, -60_000, -40_000).collect();
    assert_eq!(rots.len(), 75, "Arg should have exactly 75 rotamers");
}

#[test]
fn test_gln_largest_rotamer_set() {
    let table = load(make_table::<3, 108>(60));
    let rots: Vec<_> = Gln::rotamers(&table, -60_000, -40_000).collect();
    assert_eq!(rots.len(), 108, "Gln should have exactly 108 rotamers");

    let sizes = [
        (Arg::NAME, Arg::N_ROTAMERS),
        (Asn::NAME, Asn::N_ROTAMERS),
        (Asp::NAME, Asp::N_ROTAMERS),
        (Cpr::NAME, Cpr::N_ROTAMERS),
        (Cyd::NAME, Cyd::N_ROTAMERS),
        (Cyh::NAME, Cyh::N_ROTAMERS),
        (Cys::NAME, Cys::N_ROTAMERS),
        (Gln::NAME, Gln::N_ROTAMERS),
        (Glu::NAME, Glu::N_ROTAMERS),
        (His::NAME, His::N_ROTAMERS),
        (Ile::NAME, Ile::N_ROTAMERS),
        (Leu::NAME, Leu::N_ROTAMERS),
        (Lys::NAME, Lys::N_ROTAMERS),
        (Met::NAME, Met::N_ROTAMERS),
        (Phe::NAME, Phe::N_ROTAMERS),
        (Pro::NAME, Pro::N_ROTAMERS),
        (Ser::NAME, Ser::N_ROTAMERS),
        (Thr::NAME, Thr::N_ROTAMERS),
        (Tpr::NAME, Tpr::N_ROTAMERS),
        (Trp::NAME, Trp::N_ROTAMERS),
        (Tyr::NAME, Tyr::N_ROTAMERS),
        (Val::NAME, Val::N_ROTAMERS),
    ];
    for (name, n_rot) in sizes {
        assert!(n_rot <= 108, "{} has {} rotamers (> 108)", name, n_rot);
    }
}

#[test]
fn test_kind_dimensions() {
    let dims = [
        (Arg::NAME, Arg::N_CHI, Arg::N_ROTAMERS, "ARG", 4, 75),
        (Asn::NAME, Asn::N_CHI, Asn::N_ROTAMERS, "ASN", 2, 36),
        (Asp::NAME, Asp::N_CHI, Asp::N_ROTAMERS, "ASP", 2, 18),
        (Cpr::NAME, Cpr::N_CHI, Cpr::N_ROTAMERS, "CPR", 3, 2),
        (Cyd::NAME, Cyd::N_CHI, Cyd::N_ROTAMERS, "CYD", 1, 3),
        (Cyh::NAME, Cyh::N_CHI, Cyh::N_ROTAMERS, "CYH", 1, 3),
        (Cys::NAME, Cys::N_CHI, Cys::N_ROTAMERS, "CYS", 1, 3),
        (Gln::NAME, Gln::N_CHI, Gln::N_ROTAMERS, "GLN", 3, 108),
        (Glu::NAME, Glu::N_CHI, Glu::N_ROTAMERS, "GLU", 3, 54),
        (His::NAME, His::N_CHI, His::N_ROTAMERS, "HIS", 2, 36),
        (Ile::NAME, Ile::N_CHI, Ile::N_ROTAMERS, "ILE", 2, 9),
        (Leu::NAME, Leu::N_CHI, Leu::N_ROTAMERS, "LEU", 2, 9),
        (Lys::NAME, Lys::N_CHI, Lys::N_ROTAMERS, "LYS", 4, 73),
        (Met::NAME, Met::N_CHI, Met::N_ROTAMERS, "MET", 3, 27),
        (Phe::NAME, Phe::N_CHI, Phe::N_ROTAMERS, "PHE", 2, 18),
        (Pro::NAME, Pro::N_CHI, Pro::N_ROTAMERS, "PRO", 3, 2),
        (Ser::NAME, Ser::N_CHI, Ser::N_ROTAMERS, "SER", 1, 3),
        (Thr::NAME, Thr::N_CHI, Thr::N_ROTAMERS, "THR", 1, 3),
        (Tpr::NAME, Tpr::N_CHI, Tpr::N_ROTAMERS, "TPR", 3, 2),
        (Trp::NAME, Trp::N_CHI, Trp::N_ROTAMERS, "TRP", 2, 36),
        (Tyr::NAME, Tyr::N_CHI, Tyr::N_ROTAMERS, "TYR", 2, 18),
        (Val::NAME, Val::N_CHI, Val::N_ROTAMERS, "VAL", 1, 3),
    ];
    assert_eq!(dims.len(), 22);
    let mut total = 0;
    for (name, n_chi, n_rot, tag, want_chi, want_rot) in dims {
        assert_eq!(name, tag);
        assert_eq!(n_chi, want_chi);
        assert_eq!(n_rot, want_rot);
        assert!((1..=4).contains(&n_chi));
        assert!((2..=108).contains(&n_rot));
        total += n_rot;
    }
    assert_eq!(total, 541);
}

#[test]
fn test_kinds_are_plain_markers() {
    let a = Arg;
    let b = a;
    assert_eq!(a, b);
    assert_eq!(format!("{:?}", Val), "Val");
    assert_eq!(a.clone(), Arg);
}
