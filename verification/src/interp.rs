//! Interpolation engine: bilinear weights, the weighted and the circular mean
//! of four corner values, and the query that blends the four cells round a
//! backbone conformation into one set of rotamers.
use crate::grid::{angle_to_grid, grid_angle, grid_frac, grid_lo, GRID_COUNT};
use crate::laws::lemma_grid_point_identity;
use crate::math::{cos_mdeg, direction, direction_rad, lemma_wrap_angle, rad_to_mdeg, sin_cos,
    sin_mdeg, to_degrees, wrap_angle, wrap_degrees};
use crate::rotamer::{Rotamer, RotamerView};
use crate::table::{cell_ok, cell_total, entry, table_wf};
use vstd::prelude::*;

verus! {

/// The weight 1: the square of the grid step, so that a product of two
/// offsets inside a cell is a weight without any rounding.
pub const WEIGHT_ONE: u32 = 100_000_000;

/// Four integers at the corners of a grid cell, named by the corner's offset
/// in φ and in ψ. As an array they come in the order 00, 10, 01, 11.
pub struct Quad {
    pub c00: int,
    pub c10: int,
    pub c01: int,
    pub c11: int,
}

impl Quad {
    /// Sum of the four parts.
    pub open spec fn total(self) -> int {
        self.c00 + self.c10 + self.c01 + self.c11
    }

    /// Sum of the four products of corresponding parts.
    pub open spec fn dot(self, v: Quad) -> int {
        self.c00 * v.c00 + self.c10 * v.c10 + self.c01 * v.c01 + self.c11 * v.c11
    }

    /// Four non-negative weights that add up to 1.
    pub open spec fn is_weights(self) -> bool {
        &&& 0 <= self.c00
        &&& 0 <= self.c10
        &&& 0 <= self.c01
        &&& 0 <= self.c11
        &&& self.total() == 100_000_000
    }

    /// Every part lies in `lo..=hi`.
    pub open spec fn within(self, lo: int, hi: int) -> bool {
        &&& lo <= self.c00 <= hi
        &&& lo <= self.c10 <= hi
        &&& lo <= self.c01 <= hi
        &&& lo <= self.c11 <= hi
    }
}

/// The four parts of an array of unsigned values.
pub open spec fn quad_u32(a: [u32; 4]) -> Quad {
    Quad { c00: a[0] as int, c10: a[1] as int, c01: a[2] as int, c11: a[3] as int }
}

/// The four parts of an array of signed values.
pub open spec fn quad_i32(a: [i32; 4]) -> Quad {
    Quad { c00: a[0] as int, c10: a[1] as int, c01: a[2] as int, c11: a[3] as int }
}

/// The bilinear weights of a point at offsets `f_phi` and `f_psi` inside its
/// cell, both counted in thousandths of a degree out of a step of 10 000.
pub open spec fn weights_at(f_phi: int, f_psi: int) -> Quad {
    Quad {
        c00: (10_000 - f_phi) * (10_000 - f_psi),
        c10: f_phi * (10_000 - f_psi),
        c01: (10_000 - f_phi) * f_psi,
        c11: f_phi * f_psi,
    }
}

/// The bilinear combination of four corner values, rounded down.
pub open spec fn bilinear_value(w: Quad, v: Quad) -> int {
    w.dot(v) / 100_000_000
}

/// Weighted sum of the sines of four angles in thousandths of a degree.
pub open spec fn sin_sum(w: Quad, a: Quad) -> int {
    w.c00 * sin_mdeg(a.c00) + w.c10 * sin_mdeg(a.c10) + w.c01 * sin_mdeg(a.c01) + w.c11
        * sin_mdeg(a.c11)
}

/// Weighted sum of the cosines of four angles in thousandths of a degree.
pub open spec fn cos_sum(w: Quad, a: Quad) -> int {
    w.c00 * cos_mdeg(a.c00) + w.c10 * cos_mdeg(a.c10) + w.c01 * cos_mdeg(a.c01) + w.c11
        * cos_mdeg(a.c11)
}

/// The angle of the first corner that carries weight, in the order 00, 10,
/// 01, 11.
pub open spec fn lead_angle(w: Quad, a: Quad) -> int {
    if w.c00 != 0 {
        a.c00
    } else if w.c10 != 0 {
        a.c10
    } else if w.c01 != 0 {
        a.c01
    } else {
        a.c11
    }
}

/// Every corner that carries weight points the same way: their angles differ
/// by whole turns at most.
pub open spec fn one_direction(w: Quad, a: Quad) -> bool {
    let d = wrap_angle(lead_angle(w, a));
    &&& w.c00 == 0 || wrap_angle(a.c00) == d
    &&& w.c10 == 0 || wrap_angle(a.c10) == d
    &&& w.c01 == 0 || wrap_angle(a.c01) == d
    &&& w.c11 == 0 || wrap_angle(a.c11) == d
}

/// The circular weighted mean of four angles, in thousandths of a degree and
/// in (−180°, 180°].
///
/// Where every corner that carries weight points the same way, the mean is
/// that direction itself, exactly. Otherwise it is the direction of the
/// weighted sum of the four unit vectors; where these cancel out exactly
/// there is no direction, and the mean is 0.
pub open spec fn circular_mean_value(w: Quad, a: Quad) -> int {
    if one_direction(w, a) {
        wrap_angle(lead_angle(w, a))
    } else {
        let s = sin_sum(w, a);
        let c = cos_sum(w, a);
        if s == 0 && c == 0 {
            0
        } else {
            wrap_angle(rad_to_mdeg(direction_rad(s, c)))
        }
    }
}

impl Quad {
    /// The four parts of `self`, each with `d` added: four angles turned by
    /// `d`.
    pub open spec fn shifted(self, d: int) -> Quad {
        Quad { c00: self.c00 + d, c10: self.c10 + d, c01: self.c01 + d, c11: self.c11 + d }
    }

    /// The four parts of `self`, each with `c` times the same part of `v`
    /// added.
    pub open spec fn plus_scaled(self, c: int, v: Quad) -> Quad {
        Quad {
            c00: self.c00 + c * v.c00,
            c10: self.c10 + c * v.c10,
            c01: self.c01 + c * v.c01,
            c11: self.c11 + c * v.c11,
        }
    }
}

/// A weighted sum is linear in the values, exactly, for any weights.
pub proof fn lemma_dot_linear(w: Quad, u: Quad, c: int, v: Quad)
    ensures
        w.dot(u.plus_scaled(c, v)) == w.dot(u) + c * w.dot(v),
{
    lemma_scaled_term(w.c00, u.c00, c, v.c00);
    lemma_scaled_term(w.c10, u.c10, c, v.c10);
    lemma_scaled_term(w.c01, u.c01, c, v.c01);
    lemma_scaled_term(w.c11, u.c11, c, v.c11);
    assert(c * (w.c00 * v.c00 + w.c10 * v.c10 + w.c01 * v.c01 + w.c11 * v.c11) == c * (w.c00
        * v.c00) + c * (w.c10 * v.c10) + c * (w.c01 * v.c01) + c * (w.c11 * v.c11))
        by (nonlinear_arith);
}

/// One term of a weighted sum of values `u + c·v`.
pub proof fn lemma_scaled_term(w: int, u: int, c: int, v: int)
    by (nonlinear_arith)
    ensures
        w * (u + c * v) == w * u + c * (w * v),
{
}

/// Rounding a sum `a + c·b` down to whole weights differs from rounding `a`
/// and `b` down first by at most `c` units, on the side of `c`.
pub proof fn lemma_floor_linear(a: int, b: int, c: int)
    ensures
        c >= 0 ==> 0 <= (a + c * b) / 100_000_000 - (a / 100_000_000 + c * (b / 100_000_000))
            <= c,
        c <= 0 ==> c <= (a + c * b) / 100_000_000 - (a / 100_000_000 + c * (b / 100_000_000))
            <= 0,
{
    let qa = a / 100_000_000;
    let ra = a % 100_000_000;
    let qb = b / 100_000_000;
    let rb = b % 100_000_000;
    let rest = ra + c * rb;
    assert(c * b == c * (100_000_000 * qb) + c * rb) by (nonlinear_arith)
        requires
            b == 100_000_000 * qb + rb,
    ;
    assert(c * (100_000_000 * qb) == 100_000_000 * (c * qb)) by (nonlinear_arith);
    assert(a + c * b == 100_000_000 * (qa + c * qb) + rest);
    assert(c >= 0 ==> 0 <= c * rb <= c * 99_999_999) by (nonlinear_arith)
        requires
            0 <= rb <= 99_999_999,
    ;
    assert(c <= 0 ==> c * 99_999_999 <= c * rb <= 0) by (nonlinear_arith)
        requires
            0 <= rb <= 99_999_999,
    ;
}

/// The bilinear combination is linear in the values, up to the rounding of
/// each term: for values `u + c·v` it differs from the combination of `u`
/// plus `c` times that of `v` by at most `c` units, on the side of `c`. This
/// holds for any weights.
pub proof fn lemma_bilinear_linear(w: Quad, u: Quad, c: int, v: Quad)
    ensures
        c >= 0 ==> 0 <= bilinear_value(w, u.plus_scaled(c, v)) - (bilinear_value(w, u) + c
            * bilinear_value(w, v)) <= c,
        c <= 0 ==> c <= bilinear_value(w, u.plus_scaled(c, v)) - (bilinear_value(w, u) + c
            * bilinear_value(w, v)) <= 0,
{
    lemma_dot_linear(w, u, c, v);
    lemma_floor_linear(w.dot(u), w.dot(v), c);
}

/// Bilinear weights are non-negative and add up to 1.
pub proof fn lemma_weights_at(f_phi: int, f_psi: int)
    by (nonlinear_arith)
    requires
        0 <= f_phi <= 10_000,
        0 <= f_psi <= 10_000,
    ensures
        weights_at(f_phi, f_psi).is_weights(),
        weights_at(f_phi, f_psi).within(0, 100_000_000),
{
}

/// A non-negative weight times a value lies between the weight times the
/// bounds of the value.
pub proof fn lemma_term_between(w: int, v: int, lo: int, hi: int)
    by (nonlinear_arith)
    requires
        0 <= w,
        lo <= v <= hi,
    ensures
        w * lo <= w * v <= w * hi,
{
}

/// A weighted sum lies between the smallest and the largest value, each
/// taken once with the whole weight.
pub proof fn lemma_dot_between(w: Quad, v: Quad, lo: int, hi: int)
    requires
        w.is_weights(),
        v.within(lo, hi),
    ensures
        100_000_000 * lo <= w.dot(v) <= 100_000_000 * hi,
{
    lemma_term_between(w.c00, v.c00, lo, hi);
    lemma_term_between(w.c10, v.c10, lo, hi);
    lemma_term_between(w.c01, v.c01, lo, hi);
    lemma_term_between(w.c11, v.c11, lo, hi);
    assert(w.c00 * lo + w.c10 * lo + w.c01 * lo + w.c11 * lo == 100_000_000 * lo)
        by (nonlinear_arith)
        requires
            w.c00 + w.c10 + w.c01 + w.c11 == 100_000_000,
    ;
    assert(w.c00 * hi + w.c10 * hi + w.c01 * hi + w.c11 * hi == 100_000_000 * hi)
        by (nonlinear_arith)
        requires
            w.c00 + w.c10 + w.c01 + w.c11 == 100_000_000,
    ;
}

/// A bilinear combination lies between the smallest and the largest of the
/// four values.
pub proof fn lemma_bilinear_between(w: Quad, v: Quad, lo: int, hi: int)
    requires
        w.is_weights(),
        v.within(lo, hi),
    ensures
        lo <= bilinear_value(w, v) <= hi,
{
    lemma_dot_between(w, v, lo, hi);
}

/// The circular mean lies in (−180°, 180°].
pub proof fn lemma_circular_mean_bounds(w: Quad, a: Quad)
    ensures
        -180_000 < circular_mean_value(w, a) <= 180_000,
{
    let s = sin_sum(w, a);
    let c = cos_sum(w, a);
    lemma_wrap_angle(lead_angle(w, a));
    if s != 0 || c != 0 {
        lemma_wrap_angle(rad_to_mdeg(direction_rad(s, c)));
    }
}

/// Identity of the circular mean: where every corner that carries weight
/// holds the same angle, the mean is that angle, brought into (−180°, 180°];
/// so it is the angle itself where the angle lies in that range. This holds
/// in particular where one corner carries all the weight, whatever the other
/// three hold.
pub proof fn lemma_mean_of_equal_angles(w: Quad, a: Quad, angle: int)
    requires
        w.is_weights(),
        w.c00 == 0 || a.c00 == angle,
        w.c10 == 0 || a.c10 == angle,
        w.c01 == 0 || a.c01 == angle,
        w.c11 == 0 || a.c11 == angle,
    ensures
        circular_mean_value(w, a) == wrap_angle(angle),
        -180_000 < angle <= 180_000 ==> circular_mean_value(w, a) == angle,
{
    lemma_wrap_angle(angle);
}

/// The four bilinear weights of a point at offsets `frac_phi` and `frac_psi`
/// inside its cell, each offset at most one grid step. They come in the order
/// 00, 10, 01, 11 and add up to `WEIGHT_ONE` exactly.
pub fn bilinear_weights(frac_phi: u32, frac_psi: u32) -> (w: [u32; 4])
    requires
        frac_phi <= 10_000,
        frac_psi <= 10_000,
    ensures
        quad_u32(w) == weights_at(frac_phi as int, frac_psi as int),
        quad_u32(w).is_weights(),
{
    proof {
        lemma_weights_at(frac_phi as int, frac_psi as int);
    }
    let g_phi: u32 = 10_000 - frac_phi;
    let g_psi: u32 = 10_000 - frac_psi;
    [g_phi * g_psi, frac_phi * g_psi, g_phi * frac_psi, frac_phi * frac_psi]
}

/// The weighted sum of four values, before the division by the weight 1.
pub fn weighted_sum(weights: [u32; 4], values: [u32; 4]) -> (s: u64)
    requires
        quad_u32(weights).is_weights(),
    ensures
        s == quad_u32(weights).dot(quad_u32(values)),
{
    proof {
        lemma_dot_between(quad_u32(weights), quad_u32(values), 0, 0xffff_ffff);
        assert(weights[0] * values[0] <= 100_000_000 * 0xffff_ffff) by (nonlinear_arith)
            requires
                0 <= weights[0] <= 100_000_000,
                0 <= values[0] <= 0xffff_ffff,
        ;
        assert(weights[1] * values[1] <= 100_000_000 * 0xffff_ffff) by (nonlinear_arith)
            requires
                0 <= weights[1] <= 100_000_000,
                0 <= values[1] <= 0xffff_ffff,
        ;
        assert(weights[2] * values[2] <= 100_000_000 * 0xffff_ffff) by (nonlinear_arith)
            requires
                0 <= weights[2] <= 100_000_000,
                0 <= values[2] <= 0xffff_ffff,
        ;
        assert(weights[3] * values[3] <= 100_000_000 * 0xffff_ffff) by (nonlinear_arith)
            requires
                0 <= weights[3] <= 100_000_000,
                0 <= values[3] <= 0xffff_ffff,
        ;
    }
    weights[0] as u64 * values[0] as u64 + weights[1] as u64 * values[1] as u64 + weights[2] as u64
        * values[2] as u64 + weights[3] as u64 * values[3] as u64
}

/// The bilinear combination of four corner values under weights that add up
/// to `WEIGHT_ONE`, rounded down. No wrap-around is taken into account: this
/// is for quantities that are not angles.
pub fn bilinear(weights: [u32; 4], values: [u32; 4]) -> (r: u32)
    requires
        quad_u32(weights).is_weights(),
    ensures
        r == bilinear_value(quad_u32(weights), quad_u32(values)),
{
    proof {
        lemma_dot_between(quad_u32(weights), quad_u32(values), 0, 0xffff_ffff);
    }
    (weighted_sum(weights, values) / 100_000_000) as u32
}

/// A weight times a sine or cosine is at most the weight in magnitude.
pub proof fn lemma_scaled_unit(w: int, v: int)
    by (nonlinear_arith)
    requires
        0 <= w,
        -1_000_000_000 <= v <= 1_000_000_000,
    ensures
        -1_000_000_000 * w <= w * v <= 1_000_000_000 * w,
{
}

/// The circular weighted mean of four angles in thousandths of a degree,
/// under weights that add up to `WEIGHT_ONE`.
///
/// Where every corner that carries weight points the same way, the mean is
/// that direction itself: one angle with all the weight, or four equal
/// angles, come back exactly. Otherwise each angle becomes a unit vector, the
/// vectors are added with their weights, and the direction of the sum is the
/// mean; so angles on both sides of ±180° average along the short arc. The
/// result lies in (−180°, 180°]. Where the weighted vectors cancel out
/// exactly it is 0.
pub fn circular_mean(weights: [u32; 4], angles: [i32; 4]) -> (r: i32)
    requires
        quad_u32(weights).is_weights(),
    ensures
        r == circular_mean_value(quad_u32(weights), quad_i32(angles)),
        -180_000 < r <= 180_000,
        one_direction(quad_u32(weights), quad_i32(angles)) ==> r == wrap_angle(
            lead_angle(quad_u32(weights), quad_i32(angles)),
        ),
        weights[0] == WEIGHT_ONE && -180_000 < angles[0] <= 180_000 ==> r == angles[0],
        weights[1] == WEIGHT_ONE && -180_000 < angles[1] <= 180_000 ==> r == angles[1],
        weights[2] == WEIGHT_ONE && -180_000 < angles[2] <= 180_000 ==> r == angles[2],
        weights[3] == WEIGHT_ONE && -180_000 < angles[3] <= 180_000 ==> r == angles[3],
        angles[0] == angles[1] && angles[1] == angles[2] && angles[2] == angles[3] && -180_000
            < angles[0] <= 180_000 ==> r == angles[0],
{
    proof {
        lemma_circular_mean_bounds(quad_u32(weights), quad_i32(angles));
        lemma_wrap_angle(angles[0] as int);
        lemma_wrap_angle(angles[1] as int);
        lemma_wrap_angle(angles[2] as int);
        lemma_wrap_angle(angles[3] as int);
    }
    let d0 = wrap_degrees(angles[0]);
    let d1 = wrap_degrees(angles[1]);
    let d2 = wrap_degrees(angles[2]);
    let d3 = wrap_degrees(angles[3]);
    let lead: i32 = if weights[0] != 0 {
        d0
    } else if weights[1] != 0 {
        d1
    } else if weights[2] != 0 {
        d2
    } else {
        d3
    };
    if (weights[0] == 0 || d0 == lead) && (weights[1] == 0 || d1 == lead) && (weights[2] == 0
        || d2 == lead) && (weights[3] == 0 || d3 == lead) {
        return lead;
    }
    let (s0, c0) = sin_cos(angles[0]);
    let (s1, c1) = sin_cos(angles[1]);
    let (s2, c2) = sin_cos(angles[2]);
    let (s3, c3) = sin_cos(angles[3]);
    proof {
        lemma_scaled_unit(weights[0] as int, s0 as int);
        lemma_scaled_unit(weights[1] as int, s1 as int);
        lemma_scaled_unit(weights[2] as int, s2 as int);
        lemma_scaled_unit(weights[3] as int, s3 as int);
        lemma_scaled_unit(weights[0] as int, c0 as int);
        lemma_scaled_unit(weights[1] as int, c1 as int);
        lemma_scaled_unit(weights[2] as int, c2 as int);
        lemma_scaled_unit(weights[3] as int, c3 as int);
    }
    let s: i64 = weights[0] as i64 * s0 as i64 + weights[1] as i64 * s1 as i64 + weights[2] as i64
        * s2 as i64 + weights[3] as i64 * s3 as i64;
    let c: i64 = weights[0] as i64 * c0 as i64 + weights[1] as i64 * c1 as i64 + weights[2] as i64
        * c2 as i64 + weights[3] as i64 * c3 as i64;
    if s == 0 && c == 0 {
        0
    } else {
        wrap_degrees(to_degrees(direction(s, c)))
    }
}

/// The rotamers of one query, all computed before the first is handed out.
///
/// Handing out the next one is a plain fetch: no arithmetic is left to do.
/// The view is the sequence of the rotamers not handed out yet.
pub struct RotamerIter<const N: usize, const R: usize> {
    items: [Rotamer<N>; R],
    idx: usize,
}

impl<const N: usize, const R: usize> View for RotamerIter<N, R> {
    type V = Seq<Rotamer<N>>;

    closed spec fn view(&self) -> Seq<Rotamer<N>> {
        self.items@.subrange(self.idx as int, R as int)
    }
}

impl<const N: usize, const R: usize> RotamerIter<N, R> {
    #[verifier::type_invariant]
    spec fn inv(&self) -> bool {
        self.idx <= R
    }

    /// Hands out the next rotamer, or `None` once all `R` are out; after that
    /// it stays `None`.
    pub fn next(&mut self) -> (r: Option<Rotamer<N>>)
        ensures
            old(self)@.len() > 0 ==> r == Some(old(self)@[0]) && final(self)@ == old(
                self,
            )@.drop_first(),
            old(self)@.len() == 0 ==> r.is_none() && final(self)@ == old(self)@,
    {
        proof {
            use_type_invariant(&*self);
        }
        if self.idx < R {
            let item = self.items[self.idx];
            self.idx += 1;
            assert(self@ =~= old(self)@.drop_first());
            Some(item)
        } else {
            None
        }
    }

    /// Lower and upper bound of the number of rotamers left: both are exact.
    pub fn size_hint(&self) -> (h: (usize, Option<usize>))
        ensures
            h.0 == self@.len(),
            h.1 == Some(h.0),
    {
        proof {
            use_type_invariant(self);
        }
        let remaining = R - self.idx;
        (remaining, Some(remaining))
    }

    /// Number of rotamers left.
    pub fn len(&self) -> (n: usize)
        ensures
            n == self@.len(),
            n <= R,
    {
        proof {
            use_type_invariant(self);
        }
        R - self.idx
    }

    /// The rotamers left, in order.
    pub fn collect(self) -> (v: Vec<Rotamer<N>>)
        ensures
            v@ == self@,
    {
        proof {
            use_type_invariant(&self);
        }
        let mut v: Vec<Rotamer<N>> = Vec::new();
        let mut k: usize = self.idx;
        while k < R
            invariant
                self.idx <= k <= R,
                v@ == self.items@.subrange(self.idx as int, k as int),
            decreases R - k,
        {
            v.push(self.items[k]);
            assert(v@ =~= self.items@.subrange(self.idx as int, k as int + 1));
            k += 1;
        }
        v
    }
}

/// The means of χ angle `i` in four entries.
pub open spec fn means_at(
    a: RotamerView,
    b: RotamerView,
    c: RotamerView,
    d: RotamerView,
    i: int,
) -> Quad {
    Quad { c00: a.chi_mean[i], c10: b.chi_mean[i], c01: c.chi_mean[i], c11: d.chi_mean[i] }
}

/// The spreads of χ angle `i` in four entries.
pub open spec fn sigmas_at(
    a: RotamerView,
    b: RotamerView,
    c: RotamerView,
    d: RotamerView,
    i: int,
) -> Quad {
    Quad { c00: a.chi_sigma[i], c10: b.chi_sigma[i], c01: c.chi_sigma[i], c11: d.chi_sigma[i] }
}

/// The probabilities of four entries.
pub open spec fn probs_of(a: RotamerView, b: RotamerView, c: RotamerView, d: RotamerView) -> Quad {
    Quad { c00: a.prob, c10: b.prob, c01: c.prob, c11: d.prob }
}

/// One interpolated rotamer from the same entry of the four corner cells: the
/// bins of the first corner, the given probability, the circular mean of the
/// four means and the bilinear combination of the four spreads for each χ.
pub open spec fn blend(
    w: Quad,
    a: RotamerView,
    b: RotamerView,
    c: RotamerView,
    d: RotamerView,
    prob: int,
) -> RotamerView {
    RotamerView {
        r: a.r,
        prob,
        chi_mean: Seq::new(
            a.chi_mean.len(),
            |i: int| circular_mean_value(w, means_at(a, b, c, d, i)),
        ),
        chi_sigma: Seq::new(
            a.chi_sigma.len(),
            |i: int| bilinear_value(w, sigmas_at(a, b, c, d, i)),
        ),
    }
}

/// The bilinear weights of the query point (φ, ψ) in its cell.
pub open spec fn query_weights(phi: int, psi: int) -> Quad {
    weights_at(grid_frac(phi), grid_frac(psi))
}

/// Weighted sum of the probabilities of entry `k` at the four corners of the
/// query's cell: the interpolated probability before normalisation, with the
/// weight 1 not yet divided out.
pub open spec fn raw_prob<const N: usize, const R: usize>(
    table: &[[[Rotamer<N>; R]; GRID_COUNT]; GRID_COUNT],
    phi: int,
    psi: int,
    k: int,
) -> int {
    let i = grid_lo(phi);
    let j = grid_lo(psi);
    query_weights(phi, psi).dot(
        probs_of(
            entry(table, i, j, k),
            entry(table, i + 1, j, k),
            entry(table, i, j + 1, k),
            entry(table, i + 1, j + 1, k),
        ),
    )
}

/// Sum of `raw_prob` over the first `n` entries.
pub open spec fn raw_total<const N: usize, const R: usize>(
    table: &[[[Rotamer<N>; R]; GRID_COUNT]; GRID_COUNT],
    phi: int,
    psi: int,
    n: int,
) -> int
    decreases n,
{
    if n <= 0 {
        0
    } else {
        raw_total(table, phi, psi, n - 1) + raw_prob(table, phi, psi, n - 1)
    }
}

/// A share of a total as a probability in parts per billion, rounded down.
pub open spec fn normalized(raw: int, total: int) -> int {
    raw * 1_000_000_000 / total
}

/// Rotamer `k` of the answer to the query (φ, ψ): the blend of entry `k` of
/// the four corner cells, with its interpolated probability divided by the
/// sum of all `R` interpolated probabilities.
pub open spec fn interpolated<const N: usize, const R: usize>(
    table: &[[[Rotamer<N>; R]; GRID_COUNT]; GRID_COUNT],
    phi: int,
    psi: int,
    k: int,
) -> RotamerView {
    let i = grid_lo(phi);
    let j = grid_lo(psi);
    blend(
        query_weights(phi, psi),
        entry(table, i, j, k),
        entry(table, i + 1, j, k),
        entry(table, i, j + 1, k),
        entry(table, i + 1, j + 1, k),
        normalized(raw_prob(table, phi, psi, k), raw_total(table, phi, psi, R as int)),
    )
}

/// The answer to the query (φ, ψ): `R` rotamers, in the order of the table's
/// entries.
pub open spec fn answer<const N: usize, const R: usize>(
    table: &[[[Rotamer<N>; R]; GRID_COUNT]; GRID_COUNT],
    phi: int,
    psi: int,
) -> Seq<RotamerView> {
    Seq::new(R as nat, |k: int| interpolated(table, phi, psi, k))
}

/// The mathematical content of a sequence of records.
pub open spec fn views<const N: usize>(s: Seq<Rotamer<N>>) -> Seq<RotamerView> {
    Seq::new(s.len(), |k: int| s[k]@)
}

/// Sum of the probabilities of the first `n` rotamers of a sequence.
pub open spec fn probability_sum(s: Seq<RotamerView>, n: int) -> int
    decreases n,
{
    if n <= 0 {
        0
    } else {
        probability_sum(s, n - 1) + s[n - 1].prob
    }
}

fn blend_entry<const N: usize>(
    w: [u32; 4],
    a: &Rotamer<N>,
    b: &Rotamer<N>,
    c: &Rotamer<N>,
    d: &Rotamer<N>,
    prob: u32,
) -> (rot: Rotamer<N>)
    requires
        quad_u32(w).is_weights(),
    ensures
        rot@ == blend(quad_u32(w), a@, b@, c@, d@, prob as int),
{
    let mut rot: Rotamer<N> = *a;
    rot.prob = prob;
    let mut i: usize = 0;
    while i < N
        invariant
            i <= N,
            quad_u32(w).is_weights(),
            rot.r == a.r,
            rot.prob == prob,
            forall|t: int|
                0 <= t < i ==> rot.chi_mean[t] == circular_mean_value(
                    quad_u32(w),
                    means_at(a@, b@, c@, d@, t),
                ),
            forall|t: int|
                0 <= t < i ==> rot.chi_sigma[t] == bilinear_value(
                    quad_u32(w),
                    sigmas_at(a@, b@, c@, d@, t),
                ),
        decreases N - i,
    {
        let mean = circular_mean(w, [a.chi_mean[i], b.chi_mean[i], c.chi_mean[i], d.chi_mean[i]]);
        let sigma = bilinear(w, [a.chi_sigma[i], b.chi_sigma[i], c.chi_sigma[i], d.chi_sigma[i]]);
        rot.chi_mean[i] = mean;
        rot.chi_sigma[i] = sigma;
        i += 1;
    }
    proof {
        let target = blend(quad_u32(w), a@, b@, c@, d@, prob as int);
        assert(rot@.r =~= target.r);
        assert(rot@.chi_mean =~= target.chi_mean);
        assert(rot@.chi_sigma =~= target.chi_sigma);
    }
    rot
}

/// A weight times a sum is the sum of the weight times each part.
pub proof fn lemma_distribute(w: int, t: int, p: int)
    by (nonlinear_arith)
    ensures
        w * (t + p) == w * t + w * p,
{
}

/// The sum of the interpolated probabilities is the weighted sum of the four
/// corner cells' own sums.
pub proof fn lemma_raw_total_split<const N: usize, const R: usize>(
    table: &[[[Rotamer<N>; R]; GRID_COUNT]; GRID_COUNT],
    phi: int,
    psi: int,
    n: int,
)
    requires
        0 <= n,
    ensures
        raw_total(table, phi, psi, n) == query_weights(phi, psi).dot(
            Quad {
                c00: cell_total(table, grid_lo(phi), grid_lo(psi), n),
                c10: cell_total(table, grid_lo(phi) + 1, grid_lo(psi), n),
                c01: cell_total(table, grid_lo(phi), grid_lo(psi) + 1, n),
                c11: cell_total(table, grid_lo(phi) + 1, grid_lo(psi) + 1, n),
            },
        ),
    decreases n,
{
    if n > 0 {
        lemma_raw_total_split(table, phi, psi, n - 1);
        let i = grid_lo(phi);
        let j = grid_lo(psi);
        let w = query_weights(phi, psi);
        lemma_distribute(w.c00, cell_total(table, i, j, n - 1), entry(table, i, j, n - 1).prob);
        lemma_distribute(
            w.c10,
            cell_total(table, i + 1, j, n - 1),
            entry(table, i + 1, j, n - 1).prob,
        );
        lemma_distribute(
            w.c01,
            cell_total(table, i, j + 1, n - 1),
            entry(table, i, j + 1, n - 1).prob,
        );
        lemma_distribute(
            w.c11,
            cell_total(table, i + 1, j + 1, n - 1),
            entry(table, i + 1, j + 1, n - 1).prob,
        );
    }
}

/// Each interpolated probability is non-negative and at most the weight 1
/// times the largest stored value, and a sum of them is at least each of its
/// terms.
pub proof fn lemma_raw_prob_bounds<const N: usize, const R: usize>(
    table: &[[[Rotamer<N>; R]; GRID_COUNT]; GRID_COUNT],
    phi: int,
    psi: int,
    n: int,
)
    requires
        0 <= n,
    ensures
        0 <= raw_total(table, phi, psi, n) <= n * (100_000_000 * 0xffff_ffff),
        forall|k: int|
            0 <= k < n ==> 0 <= #[trigger] raw_prob(table, phi, psi, k) <= raw_total(
                table,
                phi,
                psi,
                n,
            ),
    decreases n,
{
    if n > 0 {
        lemma_raw_prob_bounds(table, phi, psi, n - 1);
        let i = grid_lo(phi);
        let j = grid_lo(psi);
        lemma_weights_at(grid_frac(phi), grid_frac(psi));
        lemma_dot_between(
            query_weights(phi, psi),
            probs_of(
                entry(table, i, j, n - 1),
                entry(table, i + 1, j, n - 1),
                entry(table, i, j + 1, n - 1),
                entry(table, i + 1, j + 1, n - 1),
            ),
            0,
            0xffff_ffff,
        );
        assert(n * (100_000_000 * 0xffff_ffff) == (n - 1) * (100_000_000 * 0xffff_ffff)
            + 100_000_000 * 0xffff_ffff) by (nonlinear_arith);
    }
}

/// On a table fit for interpolation the sum of the interpolated
/// probabilities is positive at every query.
pub proof fn lemma_raw_total_positive<const N: usize, const R: usize>(
    table: &[[[Rotamer<N>; R]; GRID_COUNT]; GRID_COUNT],
    phi: int,
    psi: int,
)
    requires
        table_wf(table),
    ensures
        raw_total(table, phi, psi, R as int) > 0,
{
    let i = grid_lo(phi);
    let j = grid_lo(psi);
    let w = query_weights(phi, psi);
    lemma_weights_at(grid_frac(phi), grid_frac(psi));
    lemma_raw_total_split(table, phi, psi, R as int);
    assert(cell_ok(table, i, j));
    assert(cell_ok(table, i + 1, j));
    assert(cell_ok(table, i, j + 1));
    assert(cell_ok(table, i + 1, j + 1));
    let t00 = cell_total(table, i, j, R as int);
    let t10 = cell_total(table, i + 1, j, R as int);
    let t01 = cell_total(table, i, j + 1, R as int);
    let t11 = cell_total(table, i + 1, j + 1, R as int);
    lemma_term_between(w.c00, t00, 1, t00);
    lemma_term_between(w.c10, t10, 1, t10);
    lemma_term_between(w.c01, t01, 1, t01);
    lemma_term_between(w.c11, t11, 1, t11);
}

/// A share of a positive total is a probability of at most 1, and it brackets
/// the exact quotient from below within one part per billion.
pub proof fn lemma_normalized_bounds(raw: int, total: int)
    by (nonlinear_arith)
    requires
        0 <= raw <= total,
        0 < total,
    ensures
        0 <= normalized(raw, total) <= 1_000_000_000,
        normalized(raw, total) * total <= raw * 1_000_000_000,
        raw * 1_000_000_000 <= normalized(raw, total) * total + total - 1,
{
}

/// Rounding down loses less than one part per billion for each rotamer: the
/// probabilities of the first `n` rotamers of an answer, times the sum of the
/// interpolated probabilities, bracket the first `n` interpolated ones.
pub proof fn lemma_probability_sum_brackets<const N: usize, const R: usize>(
    table: &[[[Rotamer<N>; R]; GRID_COUNT]; GRID_COUNT],
    phi: int,
    psi: int,
    n: int,
)
    requires
        table_wf(table),
        0 <= n <= R,
    ensures
        probability_sum(answer(table, phi, psi), n) * raw_total(table, phi, psi, R as int)
            <= raw_total(table, phi, psi, n) * 1_000_000_000,
        raw_total(table, phi, psi, n) * 1_000_000_000 <= probability_sum(
            answer(table, phi, psi),
            n,
        ) * raw_total(table, phi, psi, R as int) + n * (raw_total(table, phi, psi, R as int) - 1),
    decreases n,
{
    let total = raw_total(table, phi, psi, R as int);
    if n > 0 {
        let raw = raw_prob(table, phi, psi, n - 1);
        let q = normalized(raw, total);
        let before = probability_sum(answer(table, phi, psi), n - 1);
        let raw_before = raw_total(table, phi, psi, n - 1);
        lemma_probability_sum_brackets(table, phi, psi, n - 1);
        lemma_raw_total_positive(table, phi, psi);
        lemma_raw_prob_bounds(table, phi, psi, R as int);
        lemma_normalized_bounds(raw, total);
        assert(answer(table, phi, psi)[n - 1].prob == q);
        assert((before + q) * total == before * total + q * total) by (nonlinear_arith);
        assert((raw_before + raw) * 1_000_000_000 == raw_before * 1_000_000_000 + raw
            * 1_000_000_000) by (nonlinear_arith);
        assert(n * (total - 1) == (n - 1) * (total - 1) + (total - 1)) by (nonlinear_arith);
    } else {
        assert(0 * total + n * (total - 1) == 0) by (nonlinear_arith)
            requires
                n == 0,
        ;
    }
}

/// The probabilities of one answer add up to 1 from below, short of it by
/// less than one part per billion for each rotamer.
pub proof fn lemma_probabilities_sum_to_one<const N: usize, const R: usize>(
    table: &[[[Rotamer<N>; R]; GRID_COUNT]; GRID_COUNT],
    phi: int,
    psi: int,
)
    requires
        table_wf(table),
    ensures
        1_000_000_000 - R < probability_sum(answer(table, phi, psi), R as int) <= 1_000_000_000,
{
    let total = raw_total(table, phi, psi, R as int);
    let sum = probability_sum(answer(table, phi, psi), R as int);
    lemma_raw_total_positive(table, phi, psi);
    lemma_probability_sum_brackets(table, phi, psi, R as int);
    assert(sum <= 1_000_000_000) by (nonlinear_arith)
        requires
            sum * total <= total * 1_000_000_000,
            total > 0,
    ;
    assert(1_000_000_000 - R < sum) by (nonlinear_arith)
        requires
            total * 1_000_000_000 <= sum * total + R * (total - 1),
            total > 0,
            R >= 1,
    ;
}

/// A blend of four entries that meet the data model meets it too, for any
/// probability of at most 1.
pub proof fn lemma_blend_wf(
    w: Quad,
    a: RotamerView,
    b: RotamerView,
    c: RotamerView,
    d: RotamerView,
    prob: int,
)
    requires
        w.is_weights(),
        a.wf(),
        b.wf(),
        c.wf(),
        d.wf(),
        a.r.len() == b.r.len(),
        a.r.len() == c.r.len(),
        a.r.len() == d.r.len(),
        0 <= prob <= 1_000_000_000,
    ensures
        blend(w, a, b, c, d, prob).wf(),
{
    let v = blend(w, a, b, c, d, prob);
    assert forall|i: int| 0 <= i < v.chi_mean.len() implies -180_000 < #[trigger] v.chi_mean[i]
        <= 180_000 by {
        lemma_circular_mean_bounds(w, means_at(a, b, c, d, i));
    }
    assert forall|i: int| 0 <= i < v.chi_sigma.len() implies 0 < #[trigger] v.chi_sigma[i] by {
        let sig = sigmas_at(a, b, c, d, i);
        assert(0 < a.chi_sigma[i] && 0 < b.chi_sigma[i] && 0 < c.chi_sigma[i] && 0
            < d.chi_sigma[i]);
        let hi = if sig.c00 >= sig.c10 && sig.c00 >= sig.c01 && sig.c00 >= sig.c11 {
            sig.c00
        } else if sig.c10 >= sig.c01 && sig.c10 >= sig.c11 {
            sig.c10
        } else if sig.c01 >= sig.c11 {
            sig.c01
        } else {
            sig.c11
        };
        lemma_bilinear_between(w, sig, 1, hi);
    }
}

/// Every rotamer of an answer meets the data model.
pub proof fn lemma_interpolated_wf<const N: usize, const R: usize>(
    table: &[[[Rotamer<N>; R]; GRID_COUNT]; GRID_COUNT],
    phi: int,
    psi: int,
    k: int,
)
    requires
        table_wf(table),
        0 <= k < R,
    ensures
        interpolated(table, phi, psi, k).wf(),
        interpolated(table, phi, psi, k).r == entry(table, 0, 0, k).r,
{
    let i = grid_lo(phi);
    let j = grid_lo(psi);
    assert(cell_ok(table, i, j));
    assert(cell_ok(table, i + 1, j));
    assert(cell_ok(table, i, j + 1));
    assert(cell_ok(table, i + 1, j + 1));
    assert(entry(table, i, j, k).wf());
    assert(entry(table, i + 1, j, k).wf());
    assert(entry(table, i, j + 1, k).wf());
    assert(entry(table, i + 1, j + 1, k).wf());
    lemma_weights_at(grid_frac(phi), grid_frac(psi));
    lemma_raw_total_positive(table, phi, psi);
    lemma_raw_prob_bounds(table, phi, psi, R as int);
    lemma_normalized_bounds(raw_prob(table, phi, psi, k), raw_total(table, phi, psi, R as int));
    lemma_blend_wf(
        query_weights(phi, psi),
        entry(table, i, j, k),
        entry(table, i + 1, j, k),
        entry(table, i, j + 1, k),
        entry(table, i + 1, j + 1, k),
        normalized(raw_prob(table, phi, psi, k), raw_total(table, phi, psi, R as int)),
    );
}

/// Builds the rotamers of a residue at the backbone angles (φ, ψ), both in
/// thousandths of a degree, from the four grid cells round that point.
///
/// Both angles are first saturated to [−180°, 180°], so every pair of angles
/// is answered. The table must be fit for interpolation (`table_wf`).
///
/// The answer holds exactly `R` rotamers, and rotamer `k` is
/// `interpolated(table, phi, psi, k)`: the bins of entry `k`, the circular
/// mean of the four corner means and the bilinear combination of the four
/// corner spreads for each χ angle, and the bilinear combination of the four
/// corner probabilities divided by the sum of all `R` of them. So each
/// rotamer meets the data model again, and the probabilities add up to 1 from
/// below, short of it by less than `R` parts per billion. At the exact
/// angles of a grid point the answer is the stored cell: bins, means and
/// spreads unchanged, and each probability as its share of the cell's sum.
pub fn build_iter<const N: usize, const R: usize>(
    table: &[[[Rotamer<N>; R]; GRID_COUNT]; GRID_COUNT],
    phi: i32,
    psi: i32,
) -> (it: RotamerIter<N, R>)
    requires
        table_wf(table),
    ensures
        it@.len() == R,
        views(it@) == answer(table, phi as int, psi as int),
        forall|k: int| 0 <= k < R ==> (#[trigger] it@[k])@.wf(),
        forall|k: int| 0 <= k < R ==> (#[trigger] it@[k])@.r == entry(table, 0, 0, k).r,
        1_000_000_000 - R < probability_sum(views(it@), R as int) <= 1_000_000_000,
        forall|i: int, j: int, k: int|
            #![trigger entry(table, i, j, k)]
            0 <= i <= 36 && 0 <= j <= 36 && 0 <= k < R && phi == grid_angle(i) && psi
                == grid_angle(j) ==> {
                &&& it@[k]@.r == entry(table, i, j, k).r
                &&& it@[k]@.chi_mean == entry(table, i, j, k).chi_mean
                &&& it@[k]@.chi_sigma == entry(table, i, j, k).chi_sigma
                &&& it@[k]@.prob == normalized(
                    entry(table, i, j, k).prob,
                    cell_total(table, i, j, R as int),
                )
            },
{
    let (lo_phi, frac_phi) = angle_to_grid(phi);
    let (lo_psi, frac_psi) = angle_to_grid(psi);
    let w = bilinear_weights(frac_phi, frac_psi);
    let c00 = &table[lo_phi][lo_psi];
    let c10 = &table[lo_phi + 1][lo_psi];
    let c01 = &table[lo_phi][lo_psi + 1];
    let c11 = &table[lo_phi + 1][lo_psi + 1];

    let mut total: u128 = 0;
    let mut k: usize = 0;
    while k < R
        invariant
            k <= R,
            quad_u32(w) == query_weights(phi as int, psi as int),
            quad_u32(w).is_weights(),
            lo_phi == grid_lo(phi as int),
            lo_psi == grid_lo(psi as int),
            *c00 == table[lo_phi as int][lo_psi as int],
            *c10 == table[lo_phi as int + 1][lo_psi as int],
            *c01 == table[lo_phi as int][lo_psi as int + 1],
            *c11 == table[lo_phi as int + 1][lo_psi as int + 1],
            total == raw_total(table, phi as int, psi as int, k as int),
        decreases R - k,
    {
        let raw = weighted_sum(w, [c00[k].prob, c10[k].prob, c01[k].prob, c11[k].prob]);
        proof {
            lemma_raw_prob_bounds(table, phi as int, psi as int, k as int + 1);
            assert(raw == raw_prob(table, phi as int, psi as int, k as int));
            assert((k + 1) * (100_000_000 * 0xffff_ffff) <= 0x1_0000_0000_0000_0000 * (100_000_000
                * 0xffff_ffff)) by (nonlinear_arith)
                requires
                    k + 1 <= 0x1_0000_0000_0000_0000,
            ;
        }
        total = total + raw as u128;
        k += 1;
    }
    proof {
        lemma_raw_total_positive(table, phi as int, psi as int);
    }
    let blank = Rotamer::<N> { r: [0u8; N], prob: 0u32, chi_mean: [0i32; N], chi_sigma: [0u32; N] };
    let mut items: [Rotamer<N>; R] = [blank; R];
    let mut k: usize = 0;
    while k < R
        invariant
            k <= R,
            quad_u32(w) == query_weights(phi as int, psi as int),
            quad_u32(w).is_weights(),
            lo_phi == grid_lo(phi as int),
            lo_psi == grid_lo(psi as int),
            *c00 == table[lo_phi as int][lo_psi as int],
            *c10 == table[lo_phi as int + 1][lo_psi as int],
            *c01 == table[lo_phi as int][lo_psi as int + 1],
            *c11 == table[lo_phi as int + 1][lo_psi as int + 1],
            total == raw_total(table, phi as int, psi as int, R as int),
            total > 0,
            forall|t: int|
                0 <= t < k ==> (#[trigger] items[t])@ == interpolated(
                    table,
                    phi as int,
                    psi as int,
                    t,
                ),
        decreases R - k,
    {
        let raw = weighted_sum(w, [c00[k].prob, c10[k].prob, c01[k].prob, c11[k].prob]);
        proof {
            lemma_raw_prob_bounds(table, phi as int, psi as int, R as int);
            assert(raw == raw_prob(table, phi as int, psi as int, k as int));
            lemma_normalized_bounds(raw as int, total as int);
            assert(raw * 1_000_000_000 <= 0xffff_ffff_ffff_ffff * 1_000_000_000)
                by (nonlinear_arith)
                requires
                    0 <= raw <= 0xffff_ffff_ffff_ffff,
            ;
        }
        let prob: u32 = (raw as u128 * 1_000_000_000 / total) as u32;
        let rot = blend_entry(w, &c00[k], &c10[k], &c01[k], &c11[k], prob);
        items[k] = rot;
        k += 1;
    }
    let it = RotamerIter { items, idx: 0 };
    proof {
        assert(it@ =~= items@);
        assert(views(it@) =~= answer(table, phi as int, psi as int));
        assert forall|t: int| 0 <= t < R implies (#[trigger] it@[t])@.wf() && it@[t]@.r == entry(
            table,
            0,
            0,
            t,
        ).r by {
            lemma_interpolated_wf(table, phi as int, psi as int, t);
            assert(views(it@)[t] == it@[t]@);
        }
        lemma_probabilities_sum_to_one(table, phi as int, psi as int);
        assert forall|i: int, j: int, k: int|
            #![trigger entry(table, i, j, k)]
            0 <= i <= 36 && 0 <= j <= 36 && 0 <= k < R && phi == grid_angle(i) && psi
                == grid_angle(j) implies {
            &&& it@[k]@.r == entry(table, i, j, k).r
            &&& it@[k]@.chi_mean == entry(table, i, j, k).chi_mean
            &&& it@[k]@.chi_sigma == entry(table, i, j, k).chi_sigma
            &&& it@[k]@.prob == normalized(
                entry(table, i, j, k).prob,
                cell_total(table, i, j, R as int),
            )
        } by {
            lemma_grid_point_identity(table, i, j, k);
            assert(views(it@)[k] == it@[k]@);
        }
    }
    it
}

} // verus!
