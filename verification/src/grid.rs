//! Grid index: from a backbone angle to a grid cell and the offset inside it.
use vstd::prelude::*;

verus! {

/// Smallest angle on the φ/ψ grid, in thousandths of a degree (−180°).
pub const GRID_MIN: i32 = -180_000;

/// Distance between two neighbouring grid points, in thousandths of a degree
/// (10°). An offset inside a cell is counted in the same unit, so it is a
/// fraction of the cell with this constant as its denominator.
pub const GRID_STEP: u32 = 10_000;

/// Number of grid points along each axis. Indices 0 to 36 cover −180° to
/// +180°.
pub const GRID_COUNT: usize = 37;

/// The angle after saturation to the grid's domain, [−180°, 180°].
pub open spec fn clamp_angle(deg: int) -> int {
    if deg < -180_000 {
        -180_000
    } else if deg > 180_000 {
        180_000
    } else {
        deg
    }
}

/// Index of the grid point at or below the saturated angle, never the last
/// one: the point above it is always on the grid.
pub open spec fn grid_lo(deg: int) -> int {
    let cell = (clamp_angle(deg) + 180_000) / 10_000;
    if cell > 35 {
        35
    } else {
        cell
    }
}

/// Offset of the saturated angle above grid point `grid_lo(deg)`, in
/// thousandths of a degree.
pub open spec fn grid_frac(deg: int) -> int {
    clamp_angle(deg) + 180_000 - 10_000 * grid_lo(deg)
}

/// Angle of grid point `idx`, in thousandths of a degree.
pub open spec fn grid_angle(idx: int) -> int {
    -180_000 + 10_000 * idx
}

/// Maps a backbone angle, in thousandths of a degree, to a grid index `lo` and
/// the offset `frac` above that grid point, in the same unit.
///
/// The angle is first saturated to [−180°, 180°]. The pair that comes back is
/// the only one with `lo` in 0..=35 and `frac` in 0..=10 000 that adds up to
/// the saturated angle and reaches the full step only in the last cell.
pub fn angle_to_grid(deg: i32) -> (r: (usize, u32))
    ensures
        r.0 == grid_lo(deg as int),
        r.1 == grid_frac(deg as int),
        r.0 <= 35,
        r.1 <= 10_000,
        grid_angle(r.0 as int) + r.1 == clamp_angle(deg as int),
        r.1 == 10_000 ==> r.0 == 35 && deg >= 180_000,
{
    let clamped: i32 = if deg < GRID_MIN {
        GRID_MIN
    } else if deg > -GRID_MIN {
        -GRID_MIN
    } else {
        deg
    };
    let shifted: u32 = (clamped - GRID_MIN) as u32;
    let cell: u32 = shifted / GRID_STEP;
    let lo: u32 = if cell > 35 {
        35
    } else {
        cell
    };
    let frac: u32 = shifted - lo * GRID_STEP;
    (lo as usize, frac)
}

/// A grid point's own angle falls on that grid point with no offset, except
/// for the last one, which closes the last cell.
pub proof fn lemma_grid_point(idx: int)
    requires
        0 <= idx <= 36,
    ensures
        idx <= 35 ==> grid_lo(grid_angle(idx)) == idx && grid_frac(grid_angle(idx)) == 0,
        idx == 36 ==> grid_lo(grid_angle(idx)) == 35 && grid_frac(grid_angle(idx)) == 10_000,
{
}

} // verus!
