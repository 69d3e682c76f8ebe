//! Backbone-dependent rotamer lookup on a periodic 10° grid, in exact integer
//! arithmetic.
//!
//! Angles are integers in thousandths of a degree, probabilities are integers
//! in parts per billion, and the trigonometry of the circular mean works on
//! billionths. Every function states what it returns over these integers.
pub mod grid;
pub mod interp;
pub mod laws;
pub mod math;
pub mod residue;
pub mod rotamer;
mod sealed;
pub mod table;

pub use grid::{angle_to_grid, GRID_COUNT, GRID_MIN, GRID_STEP};
pub use interp::{bilinear, bilinear_weights, build_iter, circular_mean, RotamerIter, WEIGHT_ONE};
pub use math::{atan2f, direction, sin_cos, to_degrees, wrap_degrees};
pub use residue::Residue;
pub use residue::{
    Arg, Asn, Asp, Cpr, Cyd, Cyh, Cys, Gln, Glu, His, Ile, Leu, Lys, Met, Phe, Pro, Ser, Thr, Tpr,
    Trp, Tyr, Val,
};
pub use rotamer::{Rotamer, PROB_ONE};
pub use table::{check_table, GridTable, MalformedData};
