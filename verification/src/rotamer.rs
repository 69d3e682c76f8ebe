//! The rotamer record: one discrete side-chain conformation with its
//! probability and the mean and spread of each χ angle.
use vstd::prelude::*;

verus! {

/// Probability 1 in parts per billion.
pub const PROB_ONE: u32 = 1_000_000_000;

/// A backbone-dependent rotamer entry for a residue with `N` χ angles, either
/// as stored at a grid point or as interpolated at a query.
#[derive(Debug, Clone, Copy, PartialEq, Eq)]
pub struct Rotamer<const N: usize> {
    /// Rotamer bin indices, counted from 1: for each χ angle the discrete bin
    /// that this conformation occupies.
    pub r: [u8; N],
    /// Probability of these bins given the backbone angles, in parts per
    /// billion.
    pub prob: u32,
    /// Mean χ angles in thousandths of a degree.
    pub chi_mean: [i32; N],
    /// Standard deviations of the χ angles in thousandths of a degree.
    pub chi_sigma: [u32; N],
}

/// The mathematical content of a rotamer record.
pub struct RotamerView {
    pub r: Seq<int>,
    pub prob: int,
    pub chi_mean: Seq<int>,
    pub chi_sigma: Seq<int>,
}

impl<const N: usize> View for Rotamer<N> {
    type V = RotamerView;

    open spec fn view(&self) -> RotamerView {
        RotamerView {
            r: Seq::new(N as nat, |i: int| self.r[i] as int),
            prob: self.prob as int,
            chi_mean: Seq::new(N as nat, |i: int| self.chi_mean[i] as int),
            chi_sigma: Seq::new(N as nat, |i: int| self.chi_sigma[i] as int),
        }
    }
}

impl RotamerView {
    /// What the data model asks of every record: bins counted from 1, a
    /// probability of at most 1, means in (−180°, 180°] and positive spreads.
    pub open spec fn wf(self) -> bool {
        &&& self.r.len() == self.chi_mean.len()
        &&& self.r.len() == self.chi_sigma.len()
        &&& 0 <= self.prob <= 1_000_000_000
        &&& forall|i: int| 0 <= i < self.r.len() ==> 1 <= #[trigger] self.r[i]
        &&& forall|i: int|
            0 <= i < self.chi_mean.len() ==> -180_000 < #[trigger] self.chi_mean[i] <= 180_000
        &&& forall|i: int| 0 <= i < self.chi_sigma.len() ==> 0 < #[trigger] self.chi_sigma[i]
    }
}

impl<const N: usize> Rotamer<N> {
    /// Tells whether the record meets the data model.
    pub fn is_well_formed(&self) -> (ok: bool)
        ensures
            ok == self@.wf(),
    {
        if self.prob > PROB_ONE {
            return false;
        }
        let mut i: usize = 0;
        while i < N
            invariant
                i <= N,
                self.prob <= 1_000_000_000,
                forall|j: int| 0 <= j < i ==> 1 <= #[trigger] self@.r[j],
                forall|j: int| 0 <= j < i ==> -180_000 < #[trigger] self@.chi_mean[j] <= 180_000,
                forall|j: int| 0 <= j < i ==> 0 < #[trigger] self@.chi_sigma[j],
            decreases N - i,
        {
            if self.r[i] < 1 || self.chi_mean[i] <= -180_000 || self.chi_mean[i] > 180_000
                || self.chi_sigma[i] == 0 {
                assert(self@.r[i as int] == self.r[i as int]);
                assert(self@.chi_mean[i as int] == self.chi_mean[i as int]);
                assert(self@.chi_sigma[i as int] == self.chi_sigma[i as int]);
                return false;
            }
            i += 1;
        }
        true
    }
}

} // verus!
