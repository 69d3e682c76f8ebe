//! Laws of the interpolation: what holds of every query on every table that
//! is fit for interpolation.
use crate::grid::{clamp_angle, grid_angle, grid_frac, grid_lo, lemma_grid_point, GRID_COUNT};
use crate::interp::{answer, circular_mean_value, cos_sum, interpolated, lead_angle,
    lemma_dot_between, lemma_interpolated_wf, lemma_mean_of_equal_angles, one_direction,
    lemma_raw_prob_bounds, lemma_raw_total_split, lemma_term_between, lemma_weights_at, means_at,
    normalized, probs_of, query_weights, raw_prob, raw_total, sigmas_at, sin_sum, views,
    weights_at, Quad};
use crate::math::{cos_mdeg, direction_rad, lemma_direction_bounds, lemma_near_seam,
    lemma_rad_to_mdeg_bounds, lemma_sin_cos_whole_turn, lemma_wrap_angle, magnitude, rad_to_mdeg,
    sin_mdeg, wrap_angle};
use crate::rotamer::{Rotamer, RotamerView};
use crate::table::{cell_ok, cell_total, entry, lemma_cell_total_bounds, table_wf};
use vstd::arithmetic::div_mod::lemma_div_multiples_vanish_quotient;
use vstd::prelude::*;

verus! {

/// Two records with the same content are the same record.
pub proof fn lemma_view_injective<const N: usize>(a: Rotamer<N>, b: Rotamer<N>)
    requires
        a@ == b@,
    ensures
        a == b,
{
    assert forall|i: int| 0 <= i < N implies a.r[i] == b.r[i] by {
        assert(a@.r[i] == a.r[i] as int);
        assert(b@.r[i] == b.r[i] as int);
    }
    assert forall|i: int| 0 <= i < N implies a.chi_mean[i] == b.chi_mean[i] by {
        assert(a@.chi_mean[i] == a.chi_mean[i] as int);
        assert(b@.chi_mean[i] == b.chi_mean[i] as int);
    }
    assert forall|i: int| 0 <= i < N implies a.chi_sigma[i] == b.chi_sigma[i] by {
        assert(a@.chi_sigma[i] == a.chi_sigma[i] as int);
        assert(b@.chi_sigma[i] == b.chi_sigma[i] as int);
    }
    assert(a.r =~= b.r);
    assert(a.chi_mean =~= b.chi_mean);
    assert(a.chi_sigma =~= b.chi_sigma);
}

/// Determinism: two answers to the same query on the same table are equal,
/// rotamer by rotamer and field by field.
pub proof fn lemma_same_query_same_answer<const N: usize, const R: usize>(
    table: &[[[Rotamer<N>; R]; GRID_COUNT]; GRID_COUNT],
    phi: int,
    psi: int,
    first: Seq<Rotamer<N>>,
    second: Seq<Rotamer<N>>,
)
    requires
        views(first) == answer(table, phi, psi),
        views(second) == answer(table, phi, psi),
    ensures
        first == second,
{
    assert(first.len() == views(first).len());
    assert(second.len() == views(second).len());
    assert forall|k: int| 0 <= k < first.len() implies first[k] == second[k] by {
        assert(views(first)[k] == first[k]@);
        assert(views(second)[k] == second[k]@);
        lemma_view_injective(first[k], second[k]);
    }
    assert(first =~= second);
}

/// A corner either carries no weight or holds an angle within 10° of the
/// seam at ±180°.
pub open spec fn idle_or_near_seam(weight: int, angle: int) -> bool {
    weight == 0 || 170_000 < magnitude(angle) <= 180_000
}

/// Where every corner that carries weight holds an angle within 10° of the
/// seam at ±180°, the weighted sum of the unit vectors is not the null vector
/// and points within 45° of the seam.
pub proof fn lemma_direction_across_seam(w: Quad, a: Quad)
    requires
        w.is_weights(),
        idle_or_near_seam(w.c00, a.c00),
        idle_or_near_seam(w.c10, a.c10),
        idle_or_near_seam(w.c01, a.c01),
        idle_or_near_seam(w.c11, a.c11),
    ensures
        cos_sum(w, a) < 0,
        magnitude(rad_to_mdeg(direction_rad(sin_sum(w, a), cos_sum(w, a)))) >= 135_000,
        -180_000 <= rad_to_mdeg(direction_rad(sin_sum(w, a), cos_sum(w, a))) <= 180_000,
{
    let s = sin_sum(w, a);
    let c = cos_sum(w, a);
    lemma_weighted_near_seam(w.c00, a.c00);
    lemma_weighted_near_seam(w.c10, a.c10);
    lemma_weighted_near_seam(w.c01, a.c01);
    lemma_weighted_near_seam(w.c11, a.c11);
    assert(c <= -98_000_000_000_000_000);
    assert(-17_500_000_000_000_000 <= s <= 17_500_000_000_000_000);
    lemma_direction_bounds(s, c);
    lemma_rad_to_mdeg_bounds(direction_rad(s, c));
}

/// Circular correctness: where every corner that carries weight holds an
/// angle within 10° of the seam at ±180°, on whichever side, the circular
/// mean stays near the seam too. Its magnitude is above 90°, which a plain
/// average of angles on both sides would not reach.
pub proof fn lemma_mean_across_seam(w: Quad, a: Quad)
    requires
        w.is_weights(),
        idle_or_near_seam(w.c00, a.c00),
        idle_or_near_seam(w.c10, a.c10),
        idle_or_near_seam(w.c01, a.c01),
        idle_or_near_seam(w.c11, a.c11),
    ensures
        magnitude(circular_mean_value(w, a)) > 90_000,
{
    if one_direction(w, a) {
        lemma_wrap_angle(lead_angle(w, a));
    } else {
        lemma_direction_across_seam(w, a);
        lemma_wrap_angle(rad_to_mdeg(direction_rad(sin_sum(w, a), cos_sum(w, a))));
    }
}

/// What one corner adds to the weighted sums of cosines and sines when it is
/// idle or near the seam.
pub proof fn lemma_weighted_near_seam(weight: int, angle: int)
    requires
        0 <= weight,
        idle_or_near_seam(weight, angle),
    ensures
        weight * cos_mdeg(angle) <= -980_000_000 * weight,
        -175_000_000 * weight <= weight * sin_mdeg(angle) <= 175_000_000 * weight,
{
    if weight == 0 {
        assert(weight * cos_mdeg(angle) == 0) by (nonlinear_arith)
            requires
                weight == 0,
        ;
        assert(weight * sin_mdeg(angle) == 0) by (nonlinear_arith)
            requires
                weight == 0,
        ;
    } else {
        lemma_near_seam(angle);
        lemma_term_between(weight, cos_mdeg(angle), cos_mdeg(angle), -980_000_000);
        lemma_term_between(weight, sin_mdeg(angle), -175_000_000, 175_000_000);
        assert(weight * -980_000_000 == -980_000_000 * weight) by (nonlinear_arith);
        assert(weight * -175_000_000 == -175_000_000 * weight) by (nonlinear_arith);
        assert(weight * 175_000_000 == 175_000_000 * weight) by (nonlinear_arith);
    }
}

/// The weights of a point on a corner of its cell, and of a point half-way
/// along one of the cell's edges in φ.
pub proof fn lemma_corner_weights()
    ensures
        weights_at(0, 0) == (Quad { c00: 100_000_000, c10: 0, c01: 0, c11: 0 }),
        weights_at(10_000, 0) == (Quad { c00: 0, c10: 100_000_000, c01: 0, c11: 0 }),
        weights_at(0, 10_000) == (Quad { c00: 0, c10: 0, c01: 100_000_000, c11: 0 }),
        weights_at(10_000, 10_000) == (Quad { c00: 0, c10: 0, c01: 0, c11: 100_000_000 }),
        weights_at(5_000, 0) == (Quad { c00: 50_000_000, c10: 50_000_000, c01: 0, c11: 0 }),
        weights_at(5_000, 10_000) == (Quad { c00: 0, c10: 0, c01: 50_000_000, c11: 50_000_000 }),
{
}

/// Where one corner carries all the weight, a weighted sum is that corner's
/// value taken with the whole weight.
pub proof fn lemma_dot_one_corner(w: Quad, v: Quad)
    by (nonlinear_arith)
    ensures
        w == (Quad { c00: 100_000_000, c10: 0, c01: 0, c11: 0 }) ==> w.dot(v) == 100_000_000
            * v.c00,
        w == (Quad { c00: 0, c10: 100_000_000, c01: 0, c11: 0 }) ==> w.dot(v) == 100_000_000
            * v.c10,
        w == (Quad { c00: 0, c10: 0, c01: 100_000_000, c11: 0 }) ==> w.dot(v) == 100_000_000
            * v.c01,
        w == (Quad { c00: 0, c10: 0, c01: 0, c11: 100_000_000 }) ==> w.dot(v) == 100_000_000
            * v.c11,
{
}

/// A share is the same when its part and its total are both taken a number
/// of times.
pub proof fn lemma_normalized_scale(scale: int, raw: int, total: int)
    requires
        0 < scale,
        0 <= raw,
        0 < total,
    ensures
        normalized(scale * raw, scale * total) == normalized(raw, total),
{
    lemma_div_multiples_vanish_quotient(
        scale,
        raw * 1_000_000_000,
        total,
    );
    assert(scale * (raw * 1_000_000_000) == (scale * raw) * 1_000_000_000) by (nonlinear_arith);
}

/// A share of a total of exactly 1 is the part itself.
pub proof fn lemma_normalized_of_one(raw: int)
    ensures
        normalized(raw, 1_000_000_000) == raw,
{
}

/// Identity on the grid: at the exact angles of grid point (`i`, `j`) the
/// answer is drawn from that cell alone. Rotamer `k` has the bins, the means
/// and the spreads of the stored entry `k`, unchanged; its probability is the
/// stored one as a share of the cell's sum, so the stored one itself where
/// the cell sums to 1.
pub proof fn lemma_grid_point_identity<const N: usize, const R: usize>(
    table: &[[[Rotamer<N>; R]; GRID_COUNT]; GRID_COUNT],
    i: int,
    j: int,
    k: int,
)
    requires
        table_wf(table),
        0 <= i <= 36,
        0 <= j <= 36,
        0 <= k < R,
    ensures
        interpolated(table, grid_angle(i), grid_angle(j), k).r == entry(table, i, j, k).r,
        interpolated(table, grid_angle(i), grid_angle(j), k).chi_sigma == entry(
            table,
            i,
            j,
            k,
        ).chi_sigma,
        interpolated(table, grid_angle(i), grid_angle(j), k).prob == normalized(
            entry(table, i, j, k).prob,
            cell_total(table, i, j, R as int),
        ),
        cell_total(table, i, j, R as int) == 1_000_000_000 ==> interpolated(
            table,
            grid_angle(i),
            grid_angle(j),
            k,
        ).prob == entry(table, i, j, k).prob,
        interpolated(table, grid_angle(i), grid_angle(j), k).chi_mean == entry(
            table,
            i,
            j,
            k,
        ).chi_mean,
        interpolated(table, grid_angle(i), grid_angle(j), k) == (RotamerView {
            prob: interpolated(table, grid_angle(i), grid_angle(j), k).prob,
            ..entry(table, i, j, k)
        }),
{
    let phi = grid_angle(i);
    let psi = grid_angle(j);
    let a = grid_lo(phi);
    let b = grid_lo(psi);
    let w = query_weights(phi, psi);
    let v = interpolated(table, phi, psi, k);
    let e = entry(table, i, j, k);
    let e00 = entry(table, a, b, k);
    let e10 = entry(table, a + 1, b, k);
    let e01 = entry(table, a, b + 1, k);
    let e11 = entry(table, a + 1, b + 1, k);
    lemma_grid_point(i);
    lemma_grid_point(j);
    assert(cell_ok(table, a, b));
    assert(cell_ok(table, i, j));
    assert(e00.wf() && e00.r == entry(table, 0, 0, k).r);
    assert(e.wf() && e.r == entry(table, 0, 0, k).r);
    let total = cell_total(table, i, j, R as int);
    lemma_cell_total_bounds(table, i, j, R as int);
    lemma_raw_total_split(table, phi, psi, R as int);
    assert(w == weights_at(grid_frac(phi), grid_frac(psi)));
    lemma_corner_weights();
    if i <= 35 && j <= 35 {
        assert(w == weights_at(0, 0));
        assert(e == e00);
    } else if i == 36 && j <= 35 {
        assert(w == weights_at(10_000, 0));
        assert(e == e10);
    } else if i <= 35 && j == 36 {
        assert(w == weights_at(0, 10_000));
        assert(e == e01);
    } else {
        assert(w == weights_at(10_000, 10_000));
        assert(e == e11);
    }
    lemma_dot_one_corner(w, probs_of(e00, e10, e01, e11));
    lemma_dot_one_corner(
        w,
        Quad {
            c00: cell_total(table, a, b, R as int),
            c10: cell_total(table, a + 1, b, R as int),
            c01: cell_total(table, a, b + 1, R as int),
            c11: cell_total(table, a + 1, b + 1, R as int),
        },
    );
    assert(raw_prob(table, phi, psi, k) == 100_000_000 * e.prob);
    assert(raw_total(table, phi, psi, R as int) == 100_000_000 * total);
    lemma_normalized_scale(100_000_000, e.prob, total);
    lemma_normalized_of_one(e.prob);
    assert forall|m: int| 0 <= m < N implies #[trigger] v.chi_sigma[m] == e.chi_sigma[m] by {
        let sig = sigmas_at(e00, e10, e01, e11, m);
        lemma_dot_one_corner(w, sig);
        assert(w.dot(sig) == 100_000_000 * e.chi_sigma[m]);
    }
    assert(v.chi_sigma =~= e.chi_sigma);
    assert forall|m: int| 0 <= m < N implies #[trigger] v.chi_mean[m] == e.chi_mean[m] by {
        lemma_mean_of_equal_angles(w, means_at(e00, e10, e01, e11, m), e.chi_mean[m]);
    }
    assert(v.chi_mean =~= e.chi_mean);
    assert(v.r =~= e.r);
}

/// Circular correctness on the table: where the mean of a χ angle crosses the
/// seam at ±180° between grid points `i` and `i + 1` of one ψ row, being
/// beyond 170° on one side and beyond −170° on the other, the answer half-way
/// between the two grid points has a mean of magnitude above 90°: the short
/// arc was taken.
pub proof fn lemma_midpoint_across_seam<const N: usize, const R: usize>(
    table: &[[[Rotamer<N>; R]; GRID_COUNT]; GRID_COUNT],
    i: int,
    j: int,
    k: int,
    m: int,
)
    requires
        table_wf(table),
        0 <= i <= 35,
        0 <= j <= 36,
        0 <= k < R,
        0 <= m < N,
        (entry(table, i, j, k).chi_mean[m] > 170_000 && entry(table, i + 1, j, k).chi_mean[m]
            < -170_000) || (entry(table, i, j, k).chi_mean[m] < -170_000 && entry(
            table,
            i + 1,
            j,
            k,
        ).chi_mean[m] > 170_000),
    ensures
        magnitude(interpolated(table, grid_angle(i) + 5_000, grid_angle(j), k).chi_mean[m])
            > 90_000,
{
    let phi = grid_angle(i) + 5_000;
    let psi = grid_angle(j);
    let b = grid_lo(psi);
    let w = query_weights(phi, psi);
    lemma_grid_point(j);
    assert(grid_lo(phi) == i && grid_frac(phi) == 5_000);
    assert(cell_ok(table, i, j));
    assert(cell_ok(table, i + 1, j));
    assert(entry(table, i, j, k).wf());
    assert(entry(table, i + 1, j, k).wf());
    let e00 = entry(table, i, b, k);
    let e10 = entry(table, i + 1, b, k);
    let e01 = entry(table, i, b + 1, k);
    let e11 = entry(table, i + 1, b + 1, k);
    let means = means_at(e00, e10, e01, e11, m);
    lemma_corner_weights();
    if j <= 35 {
        assert(w == weights_at(5_000, 0));
    } else {
        assert(w == weights_at(5_000, 10_000));
    }
    lemma_mean_across_seam(w, means);
}

/// Every cell's probabilities add up to 1 within `eps` parts per billion.
pub open spec fn cells_sum_within<const N: usize, const R: usize>(
    table: &[[[Rotamer<N>; R]; GRID_COUNT]; GRID_COUNT],
    eps: int,
) -> bool {
    forall|i: int, j: int|
        0 <= i < 37 && 0 <= j < 37 ==> 1_000_000_000 - eps <= #[trigger] cell_total(
            table,
            i,
            j,
            R as int,
        ) <= 1_000_000_000 + eps
}

/// The probability of entry `k` on grid line `i` of φ at the angle ψ,
/// interpolated along ψ alone, with the grid step not yet divided out.
pub open spec fn column_value<const N: usize, const R: usize>(
    table: &[[[Rotamer<N>; R]; GRID_COUNT]; GRID_COUNT],
    i: int,
    psi: int,
    k: int,
) -> int {
    (10_000 - grid_frac(psi)) * entry(table, i, grid_lo(psi), k).prob + grid_frac(psi) * entry(
        table,
        i,
        grid_lo(psi) + 1,
        k,
    ).prob
}

/// The interpolated probability of entry `k` at offset `f` above grid line
/// `lo` of φ, with the weight 1 not yet divided out.
pub open spec fn raw_at<const N: usize, const R: usize>(
    table: &[[[Rotamer<N>; R]; GRID_COUNT]; GRID_COUNT],
    lo: int,
    f: int,
    psi: int,
    k: int,
) -> int {
    (10_000 - f) * column_value(table, lo, psi, k) + f * column_value(table, lo + 1, psi, k)
}

/// A bilinear combination is a linear one in φ of two linear ones in ψ.
pub proof fn lemma_bilinear_splits(f: int, g: int, v00: int, v10: int, v01: int, v11: int)
    ensures
        (10_000 - f) * (10_000 - g) * v00 + f * (10_000 - g) * v10 + (10_000 - f) * g * v01 + f
            * g * v11 == (10_000 - f) * ((10_000 - g) * v00 + g * v01) + f * ((10_000 - g) * v10
            + g * v11),
{
    let a = 10_000 - f;
    let b = 10_000 - g;
    lemma_two_terms(a, b, v00, g, v01);
    lemma_two_terms(f, b, v10, g, v11);
}

/// A factor times a sum of two products is the sum of the two triple
/// products.
pub proof fn lemma_two_terms(a: int, b: int, p: int, g: int, q: int)
    by (nonlinear_arith)
    ensures
        a * (b * p + g * q) == a * b * p + a * g * q,
{
}

/// A combination of two probabilities along ψ lies between 0 and one grid
/// step.
pub proof fn lemma_column_bounds(g: int, first: int, second: int)
    by (nonlinear_arith)
    requires
        0 <= g <= 10_000,
        0 <= first <= 1_000_000_000,
        0 <= second <= 1_000_000_000,
    ensures
        0 <= (10_000 - g) * first + g * second <= 10_000_000_000_000,
{
}

/// Inside a cell the interpolated value moves by at most the distance times
/// the largest difference of the two ends.
pub proof fn lemma_segment_slope(f1: int, f2: int, e0: int, e1: int)
    by (nonlinear_arith)
    requires
        0 <= f1 <= f2 <= 10_000,
        0 <= e0 <= 10_000_000_000_000,
        0 <= e1 <= 10_000_000_000_000,
    ensures
        ((10_000 - f2) * e0 + f2 * e1) - ((10_000 - f1) * e0 + f1 * e1) <= (f2 - f1)
            * 10_000_000_000_000,
        ((10_000 - f1) * e0 + f1 * e1) - ((10_000 - f2) * e0 + f2 * e1) <= (f2 - f1)
            * 10_000_000_000_000,
{
}

/// The value on a grid line: both cells that meet there give it.
pub proof fn lemma_segment_ends(e0: int, e1: int)
    by (nonlinear_arith)
    ensures
        (10_000 - 10_000) * e0 + 10_000 * e1 == 10_000 * e1,
        (10_000 - 0) * e1 + 0 * e0 == 10_000 * e1,
{
}

/// The interpolated probability at a query, seen as a point on a grid line
/// of ψ.
pub proof fn lemma_raw_prob_is_raw_at<const N: usize, const R: usize>(
    table: &[[[Rotamer<N>; R]; GRID_COUNT]; GRID_COUNT],
    phi: int,
    psi: int,
    k: int,
)
    ensures
        raw_prob(table, phi, psi, k) == raw_at(table, grid_lo(phi), grid_frac(phi), psi, k),
{
    let i = grid_lo(phi);
    let j = grid_lo(psi);
    lemma_bilinear_splits(
        grid_frac(phi),
        grid_frac(psi),
        entry(table, i, j, k).prob,
        entry(table, i + 1, j, k).prob,
        entry(table, i, j + 1, k).prob,
        entry(table, i + 1, j + 1, k).prob,
    );
}

/// The value on grid line `i` of φ lies between 0 and one grid step.
pub proof fn lemma_column_value_bounds<const N: usize, const R: usize>(
    table: &[[[Rotamer<N>; R]; GRID_COUNT]; GRID_COUNT],
    i: int,
    psi: int,
    k: int,
)
    requires
        table_wf(table),
        0 <= i <= 36,
        0 <= k < R,
    ensures
        0 <= column_value(table, i, psi, k) <= 10_000_000_000_000,
{
    let j = grid_lo(psi);
    assert(cell_ok(table, i, j));
    assert(cell_ok(table, i, j + 1));
    assert(entry(table, i, j, k).wf());
    assert(entry(table, i, j + 1, k).wf());
    lemma_column_bounds(grid_frac(psi), entry(table, i, j, k).prob, entry(table, i, j + 1, k).prob);
}

/// Along φ the interpolated probability, before the weight 1 is divided
/// out, moves by at most one grid step of probability for each thousandth of
/// a degree, however many cells lie between the two points.
pub proof fn lemma_raw_at_slope<const N: usize, const R: usize>(
    table: &[[[Rotamer<N>; R]; GRID_COUNT]; GRID_COUNT],
    lo1: int,
    f1: int,
    lo2: int,
    f2: int,
    psi: int,
    k: int,
)
    requires
        table_wf(table),
        0 <= k < R,
        0 <= lo1 <= lo2 <= 35,
        0 <= f1 <= 10_000,
        0 <= f2 <= 10_000,
        lo1 * 10_000 + f1 <= lo2 * 10_000 + f2,
    ensures
        raw_at(table, lo2, f2, psi, k) - raw_at(table, lo1, f1, psi, k) <= ((lo2 * 10_000 + f2) - (
        lo1 * 10_000 + f1)) * 10_000_000_000_000,
        raw_at(table, lo1, f1, psi, k) - raw_at(table, lo2, f2, psi, k) <= ((lo2 * 10_000 + f2) - (
        lo1 * 10_000 + f1)) * 10_000_000_000_000,
    decreases lo2 - lo1,
{
    let e0 = column_value(table, lo2, psi, k);
    let e1 = column_value(table, lo2 + 1, psi, k);
    lemma_column_value_bounds(table, lo2, psi, k);
    lemma_column_value_bounds(table, lo2 + 1, psi, k);
    if lo1 == lo2 {
        lemma_segment_slope(f1, f2, e0, e1);
    } else {
        let d0 = column_value(table, lo2 - 1, psi, k);
        lemma_column_value_bounds(table, lo2 - 1, psi, k);
        lemma_segment_slope(0, f2, e0, e1);
        lemma_segment_ends(d0, e0);
        lemma_segment_ends(e1, e0);
        assert(raw_at(table, lo2 - 1, 10_000, psi, k) == raw_at(table, lo2, 0, psi, k));
        lemma_raw_at_slope(table, lo1, f1, lo2 - 1, 10_000, psi, k);
    }
}

/// A product is cut by a positive factor that both sides share.
pub proof fn lemma_cancel_factor(a: int, b: int, t: int)
    by (nonlinear_arith)
    requires
        0 < t,
    ensures
        a * t <= b * t ==> a <= b,
        a * t < b * t ==> a < b,
{
}

/// Where the total is within `eps` parts per billion of 1, with the weight 1
/// not yet divided out, the share of a part in it is the part itself within
/// `eps` parts per billion, rounding apart.
pub proof fn lemma_share_near(raw: int, total: int, eps: int)
    requires
        0 <= raw <= total,
        0 < total,
        0 <= eps,
        100_000_000_000_000_000 - eps * 100_000_000 <= total <= 100_000_000_000_000_000 + eps
            * 100_000_000,
    ensures
        raw - eps * 100_000_000 - 100_000_000 < normalized(raw, total) * 100_000_000 <= raw + eps
            * 100_000_000,
{
    let q = normalized(raw, total);
    let slack = eps * 100_000_000;
    let gap = 100_000_000_000_000_000 - total;
    crate::interp::lemma_normalized_bounds(raw, total);
    lemma_term_between(raw, gap, -slack, slack);
    lemma_term_between(slack, raw, 0, total);
    assert(raw * 100_000_000_000_000_000 == raw * total + raw * gap) by (nonlinear_arith)
        requires
            gap == 100_000_000_000_000_000 - total,
    ;
    assert(raw * -slack == -(slack * raw) && raw * slack == slack * raw) by (nonlinear_arith);
    assert((q * total) * 100_000_000 == (q * 100_000_000) * total) by (nonlinear_arith);
    assert((raw + slack) * total == raw * total + slack * total) by (nonlinear_arith);
    assert((q * 100_000_000 + 100_000_000) * total == (q * 100_000_000) * total + 100_000_000
        * total) by (nonlinear_arith);
    assert((raw - slack) * total == raw * total - slack * total) by (nonlinear_arith);
    lemma_cancel_factor(q * 100_000_000, raw + slack, total);
    lemma_cancel_factor(raw - slack, q * 100_000_000 + 100_000_000, total);
}

/// On a table whose cells sum to 1 within `eps`, the sum of the interpolated
/// probabilities at any query is 1 within `eps` as well.
pub proof fn lemma_raw_total_near_one<const N: usize, const R: usize>(
    table: &[[[Rotamer<N>; R]; GRID_COUNT]; GRID_COUNT],
    phi: int,
    psi: int,
    eps: int,
)
    requires
        cells_sum_within(table, eps),
    ensures
        100_000_000 * (1_000_000_000 - eps) <= raw_total(table, phi, psi, R as int) <= 100_000_000
            * (1_000_000_000 + eps),
{
    let i = grid_lo(phi);
    let j = grid_lo(psi);
    lemma_weights_at(grid_frac(phi), grid_frac(psi));
    lemma_raw_total_split(table, phi, psi, R as int);
    let sums = Quad {
        c00: cell_total(table, i, j, R as int),
        c10: cell_total(table, i + 1, j, R as int),
        c01: cell_total(table, i, j + 1, R as int),
        c11: cell_total(table, i + 1, j + 1, R as int),
    };
    assert(sums.within(1_000_000_000 - eps, 1_000_000_000 + eps));
    lemma_dot_between(query_weights(phi, psi), sums, 1_000_000_000 - eps, 1_000_000_000 + eps);
}

/// Continuity along φ: on a table whose cells each sum to 1 within `eps`
/// parts per billion, the probability of a rotamer moves by at most 100 000
/// parts per billion for each thousandth of a degree that the saturated φ
/// moves, apart from twice `eps` for normalising and one part for rounding.
pub proof fn lemma_probability_continuous<const N: usize, const R: usize>(
    table: &[[[Rotamer<N>; R]; GRID_COUNT]; GRID_COUNT],
    phi1: int,
    phi2: int,
    psi: int,
    k: int,
    eps: int,
)
    requires
        table_wf(table),
        0 <= eps,
        cells_sum_within(table, eps),
        0 <= k < R,
        clamp_angle(phi1) <= clamp_angle(phi2),
    ensures
        magnitude(
            interpolated(table, phi2, psi, k).prob - interpolated(table, phi1, psi, k).prob,
        ) <= (clamp_angle(phi2) - clamp_angle(phi1)) * 100_000 + 2 * eps + 1,
{
    let lo1 = grid_lo(phi1);
    let f1 = grid_frac(phi1);
    let lo2 = grid_lo(phi2);
    let f2 = grid_frac(phi2);
    let raw1 = raw_prob(table, phi1, psi, k);
    let raw2 = raw_prob(table, phi2, psi, k);
    let total1 = raw_total(table, phi1, psi, R as int);
    let total2 = raw_total(table, phi2, psi, R as int);
    lemma_raw_prob_is_raw_at(table, phi1, psi, k);
    lemma_raw_prob_is_raw_at(table, phi2, psi, k);
    lemma_raw_at_slope(table, lo1, f1, lo2, f2, psi, k);
    let d = clamp_angle(phi2) - clamp_angle(phi1);
    assert(lo2 * 10_000 + f2 - (lo1 * 10_000 + f1) == d);
    assert(raw2 - raw1 <= d * 10_000_000_000_000);
    assert(raw1 - raw2 <= d * 10_000_000_000_000);
    assert(d * 10_000_000_000_000 == (d * 100_000) * 100_000_000) by (nonlinear_arith);
    assert(eps * 100_000_000 == 100_000_000 * eps) by (nonlinear_arith);
    lemma_raw_prob_bounds(table, phi1, psi, R as int);
    lemma_raw_prob_bounds(table, phi2, psi, R as int);
    crate::interp::lemma_raw_total_positive(table, phi1, psi);
    crate::interp::lemma_raw_total_positive(table, phi2, psi);
    lemma_raw_total_near_one(table, phi1, psi, eps);
    lemma_raw_total_near_one(table, phi2, psi, eps);
    lemma_share_near(raw1, total1, eps);
    lemma_share_near(raw2, total2, eps);
}

/// Continuity along φ in steps of a tenth of a degree: on a table whose cells
/// each sum to 1 within a thousandth, two queries whose saturated φ differ by
/// at most 0.1°, at the same ψ, give every rotamer probabilities that differ
/// by less than 0.05. This holds inside a cell and across a grid line.
pub proof fn lemma_small_step_small_change<const N: usize, const R: usize>(
    table: &[[[Rotamer<N>; R]; GRID_COUNT]; GRID_COUNT],
    phi1: int,
    phi2: int,
    psi: int,
    k: int,
)
    requires
        table_wf(table),
        cells_sum_within(table, 1_000_000),
        0 <= k < R,
        magnitude(clamp_angle(phi2) - clamp_angle(phi1)) <= 100,
    ensures
        magnitude(
            interpolated(table, phi2, psi, k).prob - interpolated(table, phi1, psi, k).prob,
        ) < 50_000_000,
{
    if clamp_angle(phi1) <= clamp_angle(phi2) {
        lemma_probability_continuous(table, phi1, phi2, psi, k, 1_000_000);
    } else {
        lemma_probability_continuous(table, phi2, phi1, psi, k, 1_000_000);
    }
}

/// Round trip on the grid: where the cell at grid point (`i`, `j`) sums to 1
/// within `eps` parts per billion, the answer at the exact angles of that
/// grid point gives entry `k` back with its bins, means and spreads
/// unchanged and its probability within `eps` parts per billion. For a cell
/// that sums to 1 within a millionth the probability is within a hundred
/// thousandth.
pub proof fn lemma_grid_point_round_trip<const N: usize, const R: usize>(
    table: &[[[Rotamer<N>; R]; GRID_COUNT]; GRID_COUNT],
    i: int,
    j: int,
    k: int,
    eps: int,
)
    requires
        table_wf(table),
        0 <= i <= 36,
        0 <= j <= 36,
        0 <= k < R,
        0 <= eps,
        1_000_000_000 - eps <= cell_total(table, i, j, R as int) <= 1_000_000_000 + eps,
    ensures
        interpolated(table, grid_angle(i), grid_angle(j), k).r == entry(table, i, j, k).r,
        interpolated(table, grid_angle(i), grid_angle(j), k).chi_mean == entry(
            table,
            i,
            j,
            k,
        ).chi_mean,
        interpolated(table, grid_angle(i), grid_angle(j), k).chi_sigma == entry(
            table,
            i,
            j,
            k,
        ).chi_sigma,
        magnitude(
            interpolated(table, grid_angle(i), grid_angle(j), k).prob - entry(table, i, j, k).prob,
        ) <= eps,
        eps <= 1_000 ==> magnitude(
            interpolated(table, grid_angle(i), grid_angle(j), k).prob - entry(table, i, j, k).prob,
        ) < 10_000,
{
    let part = entry(table, i, j, k).prob;
    let sum = cell_total(table, i, j, R as int);
    lemma_grid_point_identity(table, i, j, k);
    lemma_cell_total_bounds(table, i, j, R as int);
    assert(cell_ok(table, i, j));
    lemma_normalized_scale(100_000_000, part, sum);
    lemma_share_near(100_000_000 * part, 100_000_000 * sum, eps);
    assert(eps * 100_000_000 == 100_000_000 * eps) by (nonlinear_arith);
}

/// No two rotamers of an answer stand for the same bins, so a rotamer can be
/// looked up by its bins.
pub proof fn lemma_answer_bins_distinct<const N: usize, const R: usize>(
    table: &[[[Rotamer<N>; R]; GRID_COUNT]; GRID_COUNT],
    phi: int,
    psi: int,
    a: int,
    b: int,
)
    requires
        table_wf(table),
        0 <= a < b < R,
    ensures
        interpolated(table, phi, psi, a).r != interpolated(table, phi, psi, b).r,
{
    lemma_interpolated_wf(table, phi, psi, a);
    lemma_interpolated_wf(table, phi, psi, b);
    assert(entry(table, 0, 0, a).r != entry(table, 0, 0, b).r);
}

/// The table holds the same data at φ = −180° and at φ = +180°, which are
/// the same backbone angle.
pub open spec fn periodic_in_phi<const N: usize, const R: usize>(
    table: &[[[Rotamer<N>; R]; GRID_COUNT]; GRID_COUNT],
) -> bool {
    forall|j: int, k: int|
        0 <= j < 37 && 0 <= k < R ==> #[trigger] entry(table, 36, j, k) == entry(table, 0, j, k)
}

/// On the lower edge of a cell in φ only the two lower corners carry weight,
/// on the upper edge only the two upper ones, and the two pairs of weights
/// are the same.
pub proof fn lemma_edge_weights(g: int)
    by (nonlinear_arith)
    ensures
        weights_at(0, g) == (Quad {
            c00: 10_000 * (10_000 - g),
            c10: 0,
            c01: 10_000 * g,
            c11: 0,
        }),
        weights_at(10_000, g) == (Quad {
            c00: 0,
            c10: 10_000 * (10_000 - g),
            c01: 0,
            c11: 10_000 * g,
        }),
{
}

/// A weighted sum on an edge of a cell in φ takes the two corners of that
/// edge alone.
pub proof fn lemma_dot_on_edge(w: Quad, v: Quad)
    by (nonlinear_arith)
    ensures
        w.c10 == 0 && w.c11 == 0 ==> w.dot(v) == w.c00 * v.c00 + w.c01 * v.c01,
        w.c00 == 0 && w.c01 == 0 ==> w.dot(v) == w.c10 * v.c10 + w.c11 * v.c11,
{
}

/// The interpolated probabilities at both ends of a periodic table agree
/// entry by entry, and so do their sums.
pub proof fn lemma_ends_agree_raw<const N: usize, const R: usize>(
    table: &[[[Rotamer<N>; R]; GRID_COUNT]; GRID_COUNT],
    psi: int,
    n: int,
)
    requires
        periodic_in_phi(table),
        0 <= n <= R,
    ensures
        raw_total(table, -180_000, psi, n) == raw_total(table, 180_000, psi, n),
        forall|k: int|
            0 <= k < n ==> #[trigger] raw_prob(table, -180_000, psi, k) == raw_prob(
                table,
                180_000,
                psi,
                k,
            ),
    decreases n,
{
    if n > 0 {
        lemma_ends_agree_raw(table, psi, n - 1);
        let k = n - 1;
        let j = grid_lo(psi);
        let g = grid_frac(psi);
        lemma_edge_weights(g);
        assert(entry(table, 36, j, k) == entry(table, 0, j, k));
        assert(entry(table, 36, j + 1, k) == entry(table, 0, j + 1, k));
        lemma_dot_on_edge(
            weights_at(0, g),
            probs_of(
                entry(table, 0, j, k),
                entry(table, 1, j, k),
                entry(table, 0, j + 1, k),
                entry(table, 1, j + 1, k),
            ),
        );
        lemma_dot_on_edge(
            weights_at(10_000, g),
            probs_of(
                entry(table, 35, j, k),
                entry(table, 36, j, k),
                entry(table, 35, j + 1, k),
                entry(table, 36, j + 1, k),
            ),
        );
    }
}

/// Periodic boundary: on a table that holds the same data at φ = −180° and
/// at φ = +180°, a query at either end of the grid gives the same answer,
/// whatever ψ is.
pub proof fn lemma_ends_agree<const N: usize, const R: usize>(
    table: &[[[Rotamer<N>; R]; GRID_COUNT]; GRID_COUNT],
    psi: int,
    k: int,
)
    requires
        table_wf(table),
        periodic_in_phi(table),
        0 <= k < R,
    ensures
        interpolated(table, -180_000, psi, k) == interpolated(table, 180_000, psi, k),
{
    let j = grid_lo(psi);
    let g = grid_frac(psi);
    let low = interpolated(table, -180_000, psi, k);
    let high = interpolated(table, 180_000, psi, k);
    let w_low = weights_at(0, g);
    let w_high = weights_at(10_000, g);
    lemma_edge_weights(g);
    lemma_ends_agree_raw(table, psi, R as int);
    assert(raw_prob(table, -180_000, psi, k) == raw_prob(table, 180_000, psi, k));
    assert(cell_ok(table, 0, j));
    assert(cell_ok(table, 35, j));
    assert(entry(table, 0, j, k).wf() && entry(table, 0, j, k).r == entry(table, 0, 0, k).r);
    assert(entry(table, 35, j, k).wf() && entry(table, 35, j, k).r == entry(table, 0, 0, k).r);
    assert(entry(table, 36, j, k) == entry(table, 0, j, k));
    assert(entry(table, 36, j + 1, k) == entry(table, 0, j + 1, k));
    let a = entry(table, 0, j, k);
    let b = entry(table, 0, j + 1, k);
    assert forall|m: int| 0 <= m < N implies #[trigger] low.chi_sigma[m] == high.chi_sigma[m] by {
        lemma_dot_on_edge(
            w_low,
            sigmas_at(a, entry(table, 1, j, k), b, entry(table, 1, j + 1, k), m),
        );
        lemma_dot_on_edge(
            w_high,
            sigmas_at(entry(table, 35, j, k), a, entry(table, 35, j + 1, k), b, m),
        );
    }
    assert forall|m: int| 0 <= m < N implies #[trigger] low.chi_mean[m] == high.chi_mean[m] by {
        let m_low = means_at(a, entry(table, 1, j, k), b, entry(table, 1, j + 1, k), m);
        let m_high = means_at(entry(table, 35, j, k), a, entry(table, 35, j + 1, k), b, m);
        lemma_dot_on_edge(
            w_low,
            Quad {
                c00: sin_mdeg(m_low.c00),
                c10: sin_mdeg(m_low.c10),
                c01: sin_mdeg(m_low.c01),
                c11: sin_mdeg(m_low.c11),
            },
        );
        lemma_dot_on_edge(
            w_high,
            Quad {
                c00: sin_mdeg(m_high.c00),
                c10: sin_mdeg(m_high.c10),
                c01: sin_mdeg(m_high.c01),
                c11: sin_mdeg(m_high.c11),
            },
        );
        lemma_dot_on_edge(
            w_low,
            Quad {
                c00: cos_mdeg(m_low.c00),
                c10: cos_mdeg(m_low.c10),
                c01: cos_mdeg(m_low.c01),
                c11: cos_mdeg(m_low.c11),
            },
        );
        lemma_dot_on_edge(
            w_high,
            Quad {
                c00: cos_mdeg(m_high.c00),
                c10: cos_mdeg(m_high.c10),
                c01: cos_mdeg(m_high.c01),
                c11: cos_mdeg(m_high.c11),
            },
        );
        assert(sin_sum(w_low, m_low) == sin_sum(w_high, m_high));
        assert(cos_sum(w_low, m_low) == cos_sum(w_high, m_high));
    }
    assert(low.chi_sigma =~= high.chi_sigma);
    assert(low.chi_mean =~= high.chi_mean);
}

/// Turning an angle by a whole turn does not change its direction, and
/// turning an angle changes its direction by as much.
pub proof fn lemma_wrap_turned(angle: int, d: int)
    ensures
        wrap_angle(angle + 360_000) == wrap_angle(angle),
        wrap_angle(wrap_angle(angle) + d) == wrap_angle(angle + d),
{
}

/// Rotation by a whole turn: turning all four angles by 360° leaves the
/// circular mean as it is, whatever the weights.
pub proof fn lemma_mean_whole_turn(w: Quad, a: Quad)
    ensures
        circular_mean_value(w, a.shifted(360_000)) == circular_mean_value(w, a),
{
    let b = a.shifted(360_000);
    lemma_sin_cos_whole_turn(a.c00);
    lemma_sin_cos_whole_turn(a.c10);
    lemma_sin_cos_whole_turn(a.c01);
    lemma_sin_cos_whole_turn(a.c11);
    lemma_wrap_turned(a.c00, 0);
    lemma_wrap_turned(a.c10, 0);
    lemma_wrap_turned(a.c01, 0);
    lemma_wrap_turned(a.c11, 0);
    assert(sin_sum(w, b) == sin_sum(w, a));
    assert(cos_sum(w, b) == cos_sum(w, a));
    assert(lead_angle(w, b) == lead_angle(w, a) + 360_000);
    assert(one_direction(w, b) == one_direction(w, a));
}

/// Rotation of one direction: where every corner that carries weight points
/// the same way, turning all four angles by `d` turns the circular mean by
/// `d` exactly.
pub proof fn lemma_mean_turns_with_one_direction(w: Quad, a: Quad, d: int)
    requires
        one_direction(w, a),
    ensures
        one_direction(w, a.shifted(d)),
        circular_mean_value(w, a.shifted(d)) == wrap_angle(circular_mean_value(w, a) + d),
{
    let b = a.shifted(d);
    lemma_wrap_turned(a.c00, d);
    lemma_wrap_turned(a.c10, d);
    lemma_wrap_turned(a.c01, d);
    lemma_wrap_turned(a.c11, d);
    lemma_wrap_turned(lead_angle(w, a), d);
    assert(lead_angle(w, b) == lead_angle(w, a) + d);
}

} // verus!
