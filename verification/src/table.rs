//! The grid table of one residue kind and what the interpolation takes for
//! granted about it.
//!
//! A table holds, for each of the 37 × 37 grid points, a list of `R` rotamers.
//! It is built once, elsewhere, and only read here. Interpolating between
//! cells makes sense only if entry `k` denotes the same bins in every cell;
//! `table_wf` states this and the other demands of the data model, and
//! `check_table` tests them.
use crate::grid::GRID_COUNT;
use crate::rotamer::{Rotamer, RotamerView};
use vstd::prelude::*;

verus! {

/// Entry `k` of the cell at grid point (`i`, `j`).
pub open spec fn entry<const N: usize, const R: usize>(
    table: &[[[Rotamer<N>; R]; GRID_COUNT]; GRID_COUNT],
    i: int,
    j: int,
    k: int,
) -> RotamerView {
    table[i][j][k]@
}

/// Sum of the probabilities of the first `n` entries of the cell at grid
/// point (`i`, `j`).
pub open spec fn cell_total<const N: usize, const R: usize>(
    table: &[[[Rotamer<N>; R]; GRID_COUNT]; GRID_COUNT],
    i: int,
    j: int,
    n: int,
) -> int
    decreases n,
{
    if n <= 0 {
        0
    } else {
        cell_total(table, i, j, n - 1) + entry(table, i, j, n - 1).prob
    }
}

/// What is asked of one cell: every entry meets the data model and has the
/// bins of the same entry in the first cell, and the probabilities of the
/// cell do not add up to zero.
pub open spec fn cell_ok<const N: usize, const R: usize>(
    table: &[[[Rotamer<N>; R]; GRID_COUNT]; GRID_COUNT],
    i: int,
    j: int,
) -> bool {
    &&& forall|k: int|
        0 <= k < R ==> (#[trigger] entry(table, i, j, k)).wf() && entry(table, i, j, k).r
            == entry(table, 0, 0, k).r
    &&& cell_total(table, i, j, R as int) > 0
}

/// No two entries of a cell stand for the same bins. Since every cell has the
/// bins of the first one, it is stated of the first.
pub open spec fn bins_distinct<const N: usize, const R: usize>(
    table: &[[[Rotamer<N>; R]; GRID_COUNT]; GRID_COUNT],
) -> bool {
    forall|a: int, b: int|
        #![trigger entry(table, 0, 0, a), entry(table, 0, 0, b)]
        0 <= a < b < R ==> entry(table, 0, 0, a).r != entry(table, 0, 0, b).r
}

/// The table is fit for interpolation: every cell is, and each combination of
/// bins occurs once.
pub open spec fn table_wf<const N: usize, const R: usize>(
    table: &[[[Rotamer<N>; R]; GRID_COUNT]; GRID_COUNT],
) -> bool {
    &&& forall|i: int, j: int| 0 <= i < 37 && 0 <= j < 37 ==> #[trigger] cell_ok(table, i, j)
    &&& bins_distinct(table)
}

/// The sum of a cell's probabilities is made of non-negative terms, so it is
/// at least each of its terms and at most `n` times the largest.
pub proof fn lemma_cell_total_bounds<const N: usize, const R: usize>(
    table: &[[[Rotamer<N>; R]; GRID_COUNT]; GRID_COUNT],
    i: int,
    j: int,
    n: int,
)
    requires
        0 <= n,
    ensures
        0 <= cell_total(table, i, j, n) <= n * 0xffff_ffff,
        forall|k: int| 0 <= k < n ==> entry(table, i, j, k).prob <= cell_total(table, i, j, n),
    decreases n,
{
    if n > 0 {
        lemma_cell_total_bounds(table, i, j, n - 1);
    }
}

fn same_bins<const N: usize>(a: &Rotamer<N>, b: &Rotamer<N>) -> (same: bool)
    ensures
        same == (a@.r == b@.r),
{
    let mut i: usize = 0;
    while i < N
        invariant
            i <= N,
            forall|t: int| 0 <= t < i ==> a@.r[t] == b@.r[t],
        decreases N - i,
    {
        if a.r[i] != b.r[i] {
            assert(a@.r[i as int] != b@.r[i as int]);
            return false;
        }
        i += 1;
    }
    assert(a@.r =~= b@.r);
    true
}

fn check_cell<const N: usize, const R: usize>(
    table: &[[[Rotamer<N>; R]; GRID_COUNT]; GRID_COUNT],
    i: usize,
    j: usize,
) -> (ok: bool)
    requires
        i < 37,
        j < 37,
    ensures
        ok == cell_ok(table, i as int, j as int),
{
    let mut total: u128 = 0;
    let mut k: usize = 0;
    while k < R
        invariant
            k <= R,
            i < 37,
            j < 37,
            total == cell_total(table, i as int, j as int, k as int),
            total <= k * 0xffff_ffff,
            forall|t: int|
                0 <= t < k ==> (#[trigger] entry(table, i as int, j as int, t)).wf() && entry(
                    table,
                    i as int,
                    j as int,
                    t,
                ).r == entry(table, 0, 0, t).r,
        decreases R - k,
    {
        let e = &table[i][j][k];
        if !e.is_well_formed() || !same_bins(e, &table[0][0][k]) {
            assert(e@ == entry(table, i as int, j as int, k as int));
            assert(table[0][0][k as int]@ == entry(table, 0, 0, k as int));
            return false;
        }
        total = total + e.prob as u128;
        k += 1;
    }
    total > 0
}

fn check_distinct<const N: usize, const R: usize>(
    table: &[[[Rotamer<N>; R]; GRID_COUNT]; GRID_COUNT],
) -> (ok: bool)
    ensures
        ok == bins_distinct(table),
{
    let mut a: usize = 0;
    while a < R
        invariant
            a <= R,
            forall|x: int, y: int|
                #![trigger entry(table, 0, 0, x), entry(table, 0, 0, y)]
                0 <= x < y < R && x < a ==> entry(table, 0, 0, x).r != entry(table, 0, 0, y).r,
        decreases R - a,
    {
        let mut b: usize = a + 1;
        while b < R
            invariant
                a < b <= R,
                forall|x: int, y: int|
                    #![trigger entry(table, 0, 0, x), entry(table, 0, 0, y)]
                    0 <= x < y < R && x < a ==> entry(table, 0, 0, x).r != entry(
                        table,
                        0,
                        0,
                        y,
                    ).r,
                forall|y: int|
                    a < y < b ==> entry(table, 0, 0, a as int).r != (#[trigger] entry(
                        table,
                        0,
                        0,
                        y,
                    )).r,
            decreases R - b,
        {
            if same_bins(&table[0][0][a], &table[0][0][b]) {
                assert(entry(table, 0, 0, a as int).r == entry(table, 0, 0, b as int).r);
                return false;
            }
            b += 1;
        }
        a += 1;
    }
    true
}

/// Tests whether a table is fit for interpolation.
///
/// It is if in every cell each entry has bins counted from 1, a probability
/// of at most 1, means in (−180°, 180°] and positive spreads, if entry `k`
/// has the same bins in every cell, if no two entries have the same bins,
/// and if no cell's probabilities add up to zero.
pub fn check_table<const N: usize, const R: usize>(
    table: &[[[Rotamer<N>; R]; GRID_COUNT]; GRID_COUNT],
) -> (ok: bool)
    ensures
        ok == table_wf(table),
{
    if !check_distinct(table) {
        return false;
    }
    let mut i: usize = 0;
    while i < GRID_COUNT
        invariant
            i <= 37,
            forall|a: int, b: int| 0 <= a < i && 0 <= b < 37 ==> #[trigger] cell_ok(table, a, b),
        decreases 37 - i,
    {
        let mut j: usize = 0;
        while j < GRID_COUNT
            invariant
                i < 37,
                j <= 37,
                forall|a: int, b: int|
                    0 <= a < i && 0 <= b < 37 ==> #[trigger] cell_ok(table, a, b),
                forall|b: int| 0 <= b < j ==> #[trigger] cell_ok(table, i as int, b),
            decreases 37 - j,
        {
            if !check_cell(table, i, j) {
                return false;
            }
            j += 1;
        }
        i += 1;
    }
    true
}

/// The fault of a table that is not fit for interpolation. It is raised when
/// a table is loaded, never at a query.
#[derive(Debug, Clone, Copy, PartialEq, Eq)]
pub struct MalformedData;

impl MalformedData {
    /// What the fault says.
    pub fn message(&self) -> (text: &'static str)
        ensures
            text@ == "malformed residue data"@,
    {
        "malformed residue data"
    }
}

/// A grid table that was found fit for interpolation when it was loaded.
///
/// The view is the table itself. Since no value of this type holds a table
/// that is not fit, a query on it asks for nothing more.
pub struct GridTable<const N: usize, const R: usize> {
    cells: Box<[[[Rotamer<N>; R]; GRID_COUNT]; GRID_COUNT]>,
}

impl<const N: usize, const R: usize> View for GridTable<N, R> {
    type V = [[[Rotamer<N>; R]; GRID_COUNT]; GRID_COUNT];

    closed spec fn view(&self) -> [[[Rotamer<N>; R]; GRID_COUNT]; GRID_COUNT] {
        *self.cells
    }
}

impl<const N: usize, const R: usize> GridTable<N, R> {
    #[verifier::type_invariant]
    spec fn inv(&self) -> bool {
        table_wf(&*self.cells)
    }

    /// Loads a table: it is accepted exactly if it is fit for interpolation,
    /// and then holds the cells as they were handed in.
    pub fn new(cells: Box<[[[Rotamer<N>; R]; GRID_COUNT]; GRID_COUNT]>) -> (loaded: Result<
        Self,
        MalformedData,
    >)
        ensures
            loaded.is_ok() == table_wf(&*cells),
            loaded matches Ok(table) ==> table@ == *cells,
    {
        if check_table(&*cells) {
            Ok(GridTable { cells })
        } else {
            Err(MalformedData)
        }
    }

    /// The cells of the table, which are fit for interpolation.
    pub fn cells(&self) -> (cells: &[[[Rotamer<N>; R]; GRID_COUNT]; GRID_COUNT])
        ensures
            *cells == self@,
            table_wf(cells),
    {
        proof {
            use_type_invariant(self);
        }
        &*self.cells
    }
}

} // verus!
