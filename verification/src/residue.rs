//! The closed family of the 22 residue kinds: the 20 standard amino acids,
//! with proline also split into cis and trans and cysteine into
//! disulfide-bonded and free. Each kind fixes how many χ angles a rotamer has
//! and how many rotamers a grid cell holds, and answers queries on a table of
//! that shape.
use crate::interp::{answer, build_iter, probability_sum, views, RotamerIter};
use crate::rotamer::{Rotamer, RotamerView};
use crate::sealed::Sealed;
use crate::table::GridTable;
use vstd::prelude::*;

verus! {

/// A residue kind of the backbone-dependent rotamer library.
///
/// The trait is sealed: the kinds of this module implement it and no other
/// type can.
pub trait Residue: Sealed + Copy + 'static {
    /// Number of χ dihedral angles of this residue kind.
    const N_CHI: usize;

    /// Number of rotamers in each grid cell.
    const N_ROTAMERS: usize;

    /// Three-letter residue name in upper case, such as `"ARG"`.
    const NAME: &'static str;

    /// The rotamer record of this kind: `Rotamer<N_CHI>`.
    type Rot: Copy + 'static;

    /// The loaded grid table of this kind: 37 × 37 cells of `N_ROTAMERS`
    /// records.
    type Table;

    /// The answer to a query: `RotamerIter<N_CHI, N_ROTAMERS>`.
    type Iter;

    /// The rotamers that the table gives at the backbone angles (φ, ψ).
    spec fn answer(table: &Self::Table, phi: int, psi: int) -> Seq<RotamerView>;

    /// The rotamers that an answer has not handed out yet.
    spec fn pending(it: &Self::Iter) -> Seq<RotamerView>;

    /// The interpolated rotamers at the backbone angles (φ, ψ), in
    /// thousandths of a degree; angles beyond ±180° count as ±180°. Every
    /// pair of angles is answered.
    ///
    /// The answer holds `N_ROTAMERS` rotamers of `N_CHI` angles each. Every
    /// one meets the data model, and their probabilities add up to 1 from
    /// below, short of it by less than one part per billion for each
    /// rotamer.
    fn rotamers(table: &Self::Table, phi: i32, psi: i32) -> (it: Self::Iter)
        ensures
            Self::pending(&it) == Self::answer(table, phi as int, psi as int),
            Self::pending(&it).len() == Self::N_ROTAMERS,
            forall|k: int|
                0 <= k < Self::N_ROTAMERS ==> (#[trigger] Self::pending(&it)[k]).wf()
                    && Self::pending(&it)[k].r.len() == Self::N_CHI,
            1_000_000_000 - Self::N_ROTAMERS < probability_sum(
                Self::pending(&it),
                Self::N_ROTAMERS as int,
            ) <= 1_000_000_000,
    ;
}

/// Arginine (4 χ angles, 75 rotamers).
#[derive(Debug, Clone, Copy, PartialEq, Eq, Hash)]
pub struct Arg;

impl Sealed for Arg {

}

impl Residue for Arg {
    const N_CHI: usize = 4;

    const N_ROTAMERS: usize = 75;

    const NAME: &'static str = "ARG";

    type Rot = Rotamer<4>;

    type Table = GridTable<4, 75>;

    type Iter = RotamerIter<4, 75>;

    open spec fn answer(table: &Self::Table, phi: int, psi: int) -> Seq<RotamerView> {
        answer(&table@, phi, psi)
    }

    open spec fn pending(it: &Self::Iter) -> Seq<RotamerView> {
        views(it@)
    }

    fn rotamers(table: &Self::Table, phi: i32, psi: i32) -> (it: Self::Iter) {
        build_iter(table.cells(), phi, psi)
    }
}

/// Asparagine (2 χ angles, 36 rotamers).
#[derive(Debug, Clone, Copy, PartialEq, Eq, Hash)]
pub struct Asn;

impl Sealed for Asn {

}

impl Residue for Asn {
    const N_CHI: usize = 2;

    const N_ROTAMERS: usize = 36;

    const NAME: &'static str = "ASN";

    type Rot = Rotamer<2>;

    type Table = GridTable<2, 36>;

    type Iter = RotamerIter<2, 36>;

    open spec fn answer(table: &Self::Table, phi: int, psi: int) -> Seq<RotamerView> {
        answer(&table@, phi, psi)
    }

    open spec fn pending(it: &Self::Iter) -> Seq<RotamerView> {
        views(it@)
    }

    fn rotamers(table: &Self::Table, phi: i32, psi: i32) -> (it: Self::Iter) {
        build_iter(table.cells(), phi, psi)
    }
}

/// Aspartate (2 χ angles, 18 rotamers).
#[derive(Debug, Clone, Copy, PartialEq, Eq, Hash)]
pub struct Asp;

impl Sealed for Asp {

}

impl Residue for Asp {
    const N_CHI: usize = 2;

    const N_ROTAMERS: usize = 18;

    const NAME: &'static str = "ASP";

    type Rot = Rotamer<2>;

    type Table = GridTable<2, 18>;

    type Iter = RotamerIter<2, 18>;

    open spec fn answer(table: &Self::Table, phi: int, psi: int) -> Seq<RotamerView> {
        answer(&table@, phi, psi)
    }

    open spec fn pending(it: &Self::Iter) -> Seq<RotamerView> {
        views(it@)
    }

    fn rotamers(table: &Self::Table, phi: i32, psi: i32) -> (it: Self::Iter) {
        build_iter(table.cells(), phi, psi)
    }
}

/// Cis-proline (3 χ angles, 2 rotamers).
#[derive(Debug, Clone, Copy, PartialEq, Eq, Hash)]
pub struct Cpr;

impl Sealed for Cpr {

}

impl Residue for Cpr {
    const N_CHI: usize = 3;

    const N_ROTAMERS: usize = 2;

    const NAME: &'static str = "CPR";

    type Rot = Rotamer<3>;

    type Table = GridTable<3, 2>;

    type Iter = RotamerIter<3, 2>;

    open spec fn answer(table: &Self::Table, phi: int, psi: int) -> Seq<RotamerView> {
        answer(&table@, phi, psi)
    }

    open spec fn pending(it: &Self::Iter) -> Seq<RotamerView> {
        views(it@)
    }

    fn rotamers(table: &Self::Table, phi: i32, psi: i32) -> (it: Self::Iter) {
        build_iter(table.cells(), phi, psi)
    }
}

/// Disulfide-bonded cysteine (1 χ angle, 3 rotamers).
#[derive(Debug, Clone, Copy, PartialEq, Eq, Hash)]
pub struct Cyd;

impl Sealed for Cyd {

}

impl Residue for Cyd {
    const N_CHI: usize = 1;

    const N_ROTAMERS: usize = 3;

    const NAME: &'static str = "CYD";

    type Rot = Rotamer<1>;

    type Table = GridTable<1, 3>;

    type Iter = RotamerIter<1, 3>;

    open spec fn answer(table: &Self::Table, phi: int, psi: int) -> Seq<RotamerView> {
        answer(&table@, phi, psi)
    }

    open spec fn pending(it: &Self::Iter) -> Seq<RotamerView> {
        views(it@)
    }

    fn rotamers(table: &Self::Table, phi: i32, psi: i32) -> (it: Self::Iter) {
        build_iter(table.cells(), phi, psi)
    }
}

/// Free (non-disulfide) cysteine (1 χ angle, 3 rotamers).
#[derive(Debug, Clone, Copy, PartialEq, Eq, Hash)]
pub struct Cyh;

impl Sealed for Cyh {

}

impl Residue for Cyh {
    const N_CHI: usize = 1;

    const N_ROTAMERS: usize = 3;

    const NAME: &'static str = "CYH";

    type Rot = Rotamer<1>;

    type Table = GridTable<1, 3>;

    type Iter = RotamerIter<1, 3>;

    open spec fn answer(table: &Self::Table, phi: int, psi: int) -> Seq<RotamerView> {
        answer(&table@, phi, psi)
    }

    open spec fn pending(it: &Self::Iter) -> Seq<RotamerView> {
        views(it@)
    }

    fn rotamers(table: &Self::Table, phi: i32, psi: i32) -> (it: Self::Iter) {
        build_iter(table.cells(), phi, psi)
    }
}

/// Combined cysteine pool (1 χ angle, 3 rotamers).
#[derive(Debug, Clone, Copy, PartialEq, Eq, Hash)]
pub struct Cys;

impl Sealed for Cys {

}

impl Residue for Cys {
    const N_CHI: usize = 1;

    const N_ROTAMERS: usize = 3;

    const NAME: &'static str = "CYS";

    type Rot = Rotamer<1>;

    type Table = GridTable<1, 3>;

    type Iter = RotamerIter<1, 3>;

    open spec fn answer(table: &Self::Table, phi: int, psi: int) -> Seq<RotamerView> {
        answer(&table@, phi, psi)
    }

    open spec fn pending(it: &Self::Iter) -> Seq<RotamerView> {
        views(it@)
    }

    fn rotamers(table: &Self::Table, phi: i32, psi: i32) -> (it: Self::Iter) {
        build_iter(table.cells(), phi, psi)
    }
}

/// Glutamine (3 χ angles, 108 rotamers).
#[derive(Debug, Clone, Copy, PartialEq, Eq, Hash)]
pub struct Gln;

impl Sealed for Gln {

}

impl Residue for Gln {
    const N_CHI: usize = 3;

    const N_ROTAMERS: usize = 108;

    const NAME: &'static str = "GLN";

    type Rot = Rotamer<3>;

    type Table = GridTable<3, 108>;

    type Iter = RotamerIter<3, 108>;

    open spec fn answer(table: &Self::Table, phi: int, psi: int) -> Seq<RotamerView> {
        answer(&table@, phi, psi)
    }

    open spec fn pending(it: &Self::Iter) -> Seq<RotamerView> {
        views(it@)
    }

    fn rotamers(table: &Self::Table, phi: i32, psi: i32) -> (it: Self::Iter) {
        build_iter(table.cells(), phi, psi)
    }
}

/// Glutamate (3 χ angles, 54 rotamers).
#[derive(Debug, Clone, Copy, PartialEq, Eq, Hash)]
pub struct Glu;

impl Sealed for Glu {

}

impl Residue for Glu {
    const N_CHI: usize = 3;

    const N_ROTAMERS: usize = 54;

    const NAME: &'static str = "GLU";

    type Rot = Rotamer<3>;

    type Table = GridTable<3, 54>;

    type Iter = RotamerIter<3, 54>;

    open spec fn answer(table: &Self::Table, phi: int, psi: int) -> Seq<RotamerView> {
        answer(&table@, phi, psi)
    }

    open spec fn pending(it: &Self::Iter) -> Seq<RotamerView> {
        views(it@)
    }

    fn rotamers(table: &Self::Table, phi: i32, psi: i32) -> (it: Self::Iter) {
        build_iter(table.cells(), phi, psi)
    }
}

/// Histidine (2 χ angles, 36 rotamers).
#[derive(Debug, Clone, Copy, PartialEq, Eq, Hash)]
pub struct His;

impl Sealed for His {

}

impl Residue for His {
    const N_CHI: usize = 2;

    const N_ROTAMERS: usize = 36;

    const NAME: &'static str = "HIS";

    type Rot = Rotamer<2>;

    type Table = GridTable<2, 36>;

    type Iter = RotamerIter<2, 36>;

    open spec fn answer(table: &Self::Table, phi: int, psi: int) -> Seq<RotamerView> {
        answer(&table@, phi, psi)
    }

    open spec fn pending(it: &Self::Iter) -> Seq<RotamerView> {
        views(it@)
    }

    fn rotamers(table: &Self::Table, phi: i32, psi: i32) -> (it: Self::Iter) {
        build_iter(table.cells(), phi, psi)
    }
}

/// Isoleucine (2 χ angles, 9 rotamers).
#[derive(Debug, Clone, Copy, PartialEq, Eq, Hash)]
pub struct Ile;

impl Sealed for Ile {

}

impl Residue for Ile {
    const N_CHI: usize = 2;

    const N_ROTAMERS: usize = 9;

    const NAME: &'static str = "ILE";

    type Rot = Rotamer<2>;

    type Table = GridTable<2, 9>;

    type Iter = RotamerIter<2, 9>;

    open spec fn answer(table: &Self::Table, phi: int, psi: int) -> Seq<RotamerView> {
        answer(&table@, phi, psi)
    }

    open spec fn pending(it: &Self::Iter) -> Seq<RotamerView> {
        views(it@)
    }

    fn rotamers(table: &Self::Table, phi: i32, psi: i32) -> (it: Self::Iter) {
        build_iter(table.cells(), phi, psi)
    }
}

/// Leucine (2 χ angles, 9 rotamers).
#[derive(Debug, Clone, Copy, PartialEq, Eq, Hash)]
pub struct Leu;

impl Sealed for Leu {

}

impl Residue for Leu {
    const N_CHI: usize = 2;

    const N_ROTAMERS: usize = 9;

    const NAME: &'static str = "LEU";

    type Rot = Rotamer<2>;

    type Table = GridTable<2, 9>;

    type Iter = RotamerIter<2, 9>;

    open spec fn answer(table: &Self::Table, phi: int, psi: int) -> Seq<RotamerView> {
        answer(&table@, phi, psi)
    }

    open spec fn pending(it: &Self::Iter) -> Seq<RotamerView> {
        views(it@)
    }

    fn rotamers(table: &Self::Table, phi: i32, psi: i32) -> (it: Self::Iter) {
        build_iter(table.cells(), phi, psi)
    }
}

/// Lysine (4 χ angles, 73 rotamers).
#[derive(Debug, Clone, Copy, PartialEq, Eq, Hash)]
pub struct Lys;

impl Sealed for Lys {

}

impl Residue for Lys {
    const N_CHI: usize = 4;

    const N_ROTAMERS: usize = 73;

    const NAME: &'static str = "LYS";

    type Rot = Rotamer<4>;

    type Table = GridTable<4, 73>;

    type Iter = RotamerIter<4, 73>;

    open spec fn answer(table: &Self::Table, phi: int, psi: int) -> Seq<RotamerView> {
        answer(&table@, phi, psi)
    }

    open spec fn pending(it: &Self::Iter) -> Seq<RotamerView> {
        views(it@)
    }

    fn rotamers(table: &Self::Table, phi: i32, psi: i32) -> (it: Self::Iter) {
        build_iter(table.cells(), phi, psi)
    }
}

/// Methionine (3 χ angles, 27 rotamers).
#[derive(Debug, Clone, Copy, PartialEq, Eq, Hash)]
pub struct Met;

impl Sealed for Met {

}

impl Residue for Met {
    const N_CHI: usize = 3;

    const N_ROTAMERS: usize = 27;

    const NAME: &'static str = "MET";

    type Rot = Rotamer<3>;

    type Table = GridTable<3, 27>;

    type Iter = RotamerIter<3, 27>;

    open spec fn answer(table: &Self::Table, phi: int, psi: int) -> Seq<RotamerView> {
        answer(&table@, phi, psi)
    }

    open spec fn pending(it: &Self::Iter) -> Seq<RotamerView> {
        views(it@)
    }

    fn rotamers(table: &Self::Table, phi: i32, psi: i32) -> (it: Self::Iter) {
        build_iter(table.cells(), phi, psi)
    }
}

/// Phenylalanine (2 χ angles, 18 rotamers).
#[derive(Debug, Clone, Copy, PartialEq, Eq, Hash)]
pub struct Phe;

impl Sealed for Phe {

}

impl Residue for Phe {
    const N_CHI: usize = 2;

    const N_ROTAMERS: usize = 18;

    const NAME: &'static str = "PHE";

    type Rot = Rotamer<2>;

    type Table = GridTable<2, 18>;

    type Iter = RotamerIter<2, 18>;

    open spec fn answer(table: &Self::Table, phi: int, psi: int) -> Seq<RotamerView> {
        answer(&table@, phi, psi)
    }

    open spec fn pending(it: &Self::Iter) -> Seq<RotamerView> {
        views(it@)
    }

    fn rotamers(table: &Self::Table, phi: i32, psi: i32) -> (it: Self::Iter) {
        build_iter(table.cells(), phi, psi)
    }
}

/// Combined proline pool (3 χ angles, 2 rotamers).
#[derive(Debug, Clone, Copy, PartialEq, Eq, Hash)]
pub struct Pro;

impl Sealed for Pro {

}

impl Residue for Pro {
    const N_CHI: usize = 3;

    const N_ROTAMERS: usize = 2;

    const NAME: &'static str = "PRO";

    type Rot = Rotamer<3>;

    type Table = GridTable<3, 2>;

    type Iter = RotamerIter<3, 2>;

    open spec fn answer(table: &Self::Table, phi: int, psi: int) -> Seq<RotamerView> {
        answer(&table@, phi, psi)
    }

    open spec fn pending(it: &Self::Iter) -> Seq<RotamerView> {
        views(it@)
    }

    fn rotamers(table: &Self::Table, phi: i32, psi: i32) -> (it: Self::Iter) {
        build_iter(table.cells(), phi, psi)
    }
}

/// Serine (1 χ angle, 3 rotamers).
#[derive(Debug, Clone, Copy, PartialEq, Eq, Hash)]
pub struct Ser;

impl Sealed for Ser {

}

impl Residue for Ser {
    const N_CHI: usize = 1;

    const N_ROTAMERS: usize = 3;

    const NAME: &'static str = "SER";

    type Rot = Rotamer<1>;

    type Table = GridTable<1, 3>;

    type Iter = RotamerIter<1, 3>;

    open spec fn answer(table: &Self::Table, phi: int, psi: int) -> Seq<RotamerView> {
        answer(&table@, phi, psi)
    }

    open spec fn pending(it: &Self::Iter) -> Seq<RotamerView> {
        views(it@)
    }

    fn rotamers(table: &Self::Table, phi: i32, psi: i32) -> (it: Self::Iter) {
        build_iter(table.cells(), phi, psi)
    }
}

/// Threonine (1 χ angle, 3 rotamers).
#[derive(Debug, Clone, Copy, PartialEq, Eq, Hash)]
pub struct Thr;

impl Sealed for Thr {

}

impl Residue for Thr {
    const N_CHI: usize = 1;

    const N_ROTAMERS: usize = 3;

    const NAME: &'static str = "THR";

    type Rot = Rotamer<1>;

    type Table = GridTable<1, 3>;

    type Iter = RotamerIter<1, 3>;

    open spec fn answer(table: &Self::Table, phi: int, psi: int) -> Seq<RotamerView> {
        answer(&table@, phi, psi)
    }

    open spec fn pending(it: &Self::Iter) -> Seq<RotamerView> {
        views(it@)
    }

    fn rotamers(table: &Self::Table, phi: i32, psi: i32) -> (it: Self::Iter) {
        build_iter(table.cells(), phi, psi)
    }
}

/// Trans-proline (3 χ angles, 2 rotamers).
#[derive(Debug, Clone, Copy, PartialEq, Eq, Hash)]
pub struct Tpr;

impl Sealed for Tpr {

}

impl Residue for Tpr {
    const N_CHI: usize = 3;

    const N_ROTAMERS: usize = 2;

    const NAME: &'static str = "TPR";

    type Rot = Rotamer<3>;

    type Table = GridTable<3, 2>;

    type Iter = RotamerIter<3, 2>;

    open spec fn answer(table: &Self::Table, phi: int, psi: int) -> Seq<RotamerView> {
        answer(&table@, phi, psi)
    }

    open spec fn pending(it: &Self::Iter) -> Seq<RotamerView> {
        views(it@)
    }

    fn rotamers(table: &Self::Table, phi: i32, psi: i32) -> (it: Self::Iter) {
        build_iter(table.cells(), phi, psi)
    }
}

/// Tryptophan (2 χ angles, 36 rotamers).
#[derive(Debug, Clone, Copy, PartialEq, Eq, Hash)]
pub struct Trp;

impl Sealed for Trp {

}

impl Residue for Trp {
    const N_CHI: usize = 2;

    const N_ROTAMERS: usize = 36;

    const NAME: &'static str = "TRP";

    type Rot = Rotamer<2>;

    type Table = GridTable<2, 36>;

    type Iter = RotamerIter<2, 36>;

    open spec fn answer(table: &Self::Table, phi: int, psi: int) -> Seq<RotamerView> {
        answer(&table@, phi, psi)
    }

    open spec fn pending(it: &Self::Iter) -> Seq<RotamerView> {
        views(it@)
    }

    fn rotamers(table: &Self::Table, phi: i32, psi: i32) -> (it: Self::Iter) {
        build_iter(table.cells(), phi, psi)
    }
}

/// Tyrosine (2 χ angles, 18 rotamers).
#[derive(Debug, Clone, Copy, PartialEq, Eq, Hash)]
pub struct Tyr;

impl Sealed for Tyr {

}

impl Residue for Tyr {
    const N_CHI: usize = 2;

    const N_ROTAMERS: usize = 18;

    const NAME: &'static str = "TYR";

    type Rot = Rotamer<2>;

    type Table = GridTable<2, 18>;

    type Iter = RotamerIter<2, 18>;

    open spec fn answer(table: &Self::Table, phi: int, psi: int) -> Seq<RotamerView> {
        answer(&table@, phi, psi)
    }

    open spec fn pending(it: &Self::Iter) -> Seq<RotamerView> {
        views(it@)
    }

    fn rotamers(table: &Self::Table, phi: i32, psi: i32) -> (it: Self::Iter) {
        build_iter(table.cells(), phi, psi)
    }
}

/// Valine (1 χ angle, 3 rotamers).
#[derive(Debug, Clone, Copy, PartialEq, Eq, Hash)]
pub struct Val;

impl Sealed for Val {

}

impl Residue for Val {
    const N_CHI: usize = 1;

    const N_ROTAMERS: usize = 3;

    const NAME: &'static str = "VAL";

    type Rot = Rotamer<1>;

    type Table = GridTable<1, 3>;

    type Iter = RotamerIter<1, 3>;

    open spec fn answer(table: &Self::Table, phi: int, psi: int) -> Seq<RotamerView> {
        answer(&table@, phi, psi)
    }

    open spec fn pending(it: &Self::Iter) -> Seq<RotamerView> {
        views(it@)
    }

    fn rotamers(table: &Self::Table, phi: i32, psi: i32) -> (it: Self::Iter) {
        build_iter(table.cells(), phi, psi)
    }
}

} // verus!
