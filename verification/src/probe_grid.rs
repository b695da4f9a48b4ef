//! Integer geometry of a baked probe grid.
//!
//! Probes are stored in row-major order (x fastest, then y, then z); probe
//! `(x, y, z)` of a grid with `[sx, sy, sz]` probes per axis is at index
//! `z·sy·sx + y·sx + x`. A cell `[cx, cy, cz]` spans the probes at
//! `cx..=cx+1`, `cy..=cy+1`, `cz..=cz+1`. Positions and interpolation weights
//! live in the renderer's scalar type `S`; the grid only stores them.

use vstd::prelude::*;

use crate::error::SpatialAudioError;

verus! {

/// Index of probe `(x, y, z)` in a grid with `dims` probes per axis.
pub open spec fn probe_index(dims: [u32; 3], x: int, y: int, z: int) -> int {
    z * (dims[1] as int) * (dims[0] as int) + y * (dims[0] as int) + x
}

/// Number of probes a grid with `dims` probes per axis holds.
pub open spec fn probe_count(dims: [u32; 3]) -> int {
    (dims[0] as int) * (dims[1] as int) * (dims[2] as int)
}

/// The cell's corner `(x + dx, y + dy, z + dz)` for corner number `k`
/// (bit 0 of `k` is `dx`, bit 1 `dy`, bit 2 `dz`).
pub open spec fn corner_index(dims: [u32; 3], cell: [u32; 3], k: int) -> int {
    let dx = k % 2;
    let dy = (k / 2) % 2;
    let dz = (k / 4) % 2;
    probe_index(dims, cell[0] + dx, cell[1] + dy, cell[2] + dz)
}

/// `cell` is a cell of the grid: it has a `+1` corner along every axis.
pub open spec fn valid_cell(dims: [u32; 3], cell: [u32; 3]) -> bool {
    cell[0] + 1 < dims[0] && cell[1] + 1 < dims[1] && cell[2] + 1 < dims[2]
}

/// A probe inside the grid has an index inside the probe list.
proof fn lemma_probe_index_in_range(sx: int, sy: int, sz: int, x: int, y: int, z: int)
    requires
        0 <= x < sx,
        0 <= y < sy,
        0 <= z < sz,
    ensures
        0 <= z * sy * sx + y * sx + x < sx * sy * sz,
{
    assert(y * sx + x < sy * sx) by (nonlinear_arith)
        requires
            0 <= x < sx,
            0 <= y < sy,
    ;
    assert(z * sy * sx + sy * sx <= sz * sy * sx) by (nonlinear_arith)
        requires
            0 <= z < sz,
            0 <= sy,
            0 <= sx,
    ;
    assert(sz * sy * sx == sx * sy * sz && 0 <= z * sy * sx && 0 <= y * sx) by (nonlinear_arith)
        requires
            0 <= x,
            0 <= y,
            0 <= z,
            0 <= sx,
            0 <= sy,
    ;
}

/// A 3D grid of acoustic probes of type `P` for spatial lookup.
#[derive(Clone, Debug)]
pub struct AcousticProbeGrid<P, S> {
    /// All probes in the grid, in row-major order (x, then y, then z).
    pub probes: Vec<P>,
    /// World-space origin (minimum corner) of the grid.
    pub grid_origin: [S; 3],
    /// Spacing between adjacent probes along each axis.
    pub grid_spacing: [S; 3],
    /// Number of probes along each axis.
    pub grid_dims: [u32; 3],
}

impl<P, S> AcousticProbeGrid<P, S> {
    /// Create a grid from a flat probe list with grid metadata. Fails with
    /// `ProbeGrid` unless there is exactly one probe per grid point.
    pub fn new(probes: Vec<P>, grid_origin: [S; 3], grid_spacing: [S; 3], grid_dims: [u32; 3]) -> (r: Result<Self, SpatialAudioError>)
        ensures
            probes@.len() == probe_count(grid_dims) ==> (r matches Ok(g) && g.probes@ == probes@ && g.grid_origin
                == grid_origin && g.grid_spacing == grid_spacing && g.grid_dims == grid_dims),
            probes@.len() != probe_count(grid_dims) ==> (r matches Err(SpatialAudioError::ProbeGrid(_))),
    {
        let d0 = grid_dims[0] as usize;
        let d1 = grid_dims[1] as usize;
        let d2 = grid_dims[2] as usize;
        let expected: Option<usize> = if d0 == 0 || d1 == 0 || d2 == 0 {
            assert(probe_count(grid_dims) == 0) by (nonlinear_arith)
                requires
                    d0 == 0 || d1 == 0 || d2 == 0,
                    probe_count(grid_dims) == (d0 as int) * (d1 as int) * (d2 as int),
            ;
            Some(0)
        } else {
            match d0.checked_mul(d1) {
                Some(p01) => p01.checked_mul(d2),
                None => None,
            }
        };
        proof {
            if expected is None {
                assert(probe_count(grid_dims) > usize::MAX) by (nonlinear_arith)
                    requires
                        d0 >= 1,
                        d1 >= 1,
                        d2 >= 1,
                        (d0 as int) * (d1 as int) > usize::MAX || (d0 as int) * (d1 as int) * (d2 as int) > usize::MAX,
                        probe_count(grid_dims) == (d0 as int) * (d1 as int) * (d2 as int),
                ;
            }
        }
        match expected {
            Some(n) => {
                if probes.len() != n {
                    return Err(SpatialAudioError::ProbeGrid("probe count does not match the grid dimensions".to_owned()));
                }
                Ok(AcousticProbeGrid { probes, grid_origin, grid_spacing, grid_dims })
            },
            None => {
                let len = probes.len();
                Err(SpatialAudioError::ProbeGrid("probe count does not match the grid dimensions".to_owned()))
            },
        }
    }

    /// Whether the grid holds exactly one probe per grid point.
    pub fn has_probe_per_point(&self) -> (r: bool)
        ensures
            r == (self.probes@.len() == probe_count(self.grid_dims)),
    {
        let d0 = self.grid_dims[0] as usize;
        let d1 = self.grid_dims[1] as usize;
        let d2 = self.grid_dims[2] as usize;
        let n = self.probes.len();
        if d0 == 0 || d1 == 0 || d2 == 0 {
            assert(probe_count(self.grid_dims) == 0) by (nonlinear_arith)
                requires
                    d0 == 0 || d1 == 0 || d2 == 0,
                    probe_count(self.grid_dims) == (d0 as int) * (d1 as int) * (d2 as int),
            ;
            return n == 0;
        }
        match d0.checked_mul(d1) {
            Some(p01) => match p01.checked_mul(d2) {
                Some(total) => n == total,
                None => {
                    assert(probe_count(self.grid_dims) > usize::MAX) by (nonlinear_arith)
                        requires
                            d2 >= 1,
                            p01 == (d0 as int) * (d1 as int),
                            (p01 as int) * (d2 as int) > usize::MAX,
                            probe_count(self.grid_dims) == (d0 as int) * (d1 as int) * (d2 as int),
                    ;
                    false
                },
            },
            None => {
                assert(probe_count(self.grid_dims) > usize::MAX) by (nonlinear_arith)
                    requires
                        d2 >= 1,
                        (d0 as int) * (d1 as int) > usize::MAX,
                        probe_count(self.grid_dims) == (d0 as int) * (d1 as int) * (d2 as int),
                ;
                false
            },
        }
    }

    /// Whether `cell` is a cell of this grid (it has a `+1` corner along
    /// every axis).
    pub fn is_valid_cell(&self, cell: [u32; 3]) -> (r: bool)
        ensures
            r == valid_cell(self.grid_dims, cell),
    {
        (cell[0] as u64) + 1 < (self.grid_dims[0] as u64) && (cell[1] as u64) + 1 < (self.grid_dims[1] as u64)
            && (cell[2] as u64) + 1 < (self.grid_dims[2] as u64)
    }

    /// Number of probes in the grid.
    pub fn len(&self) -> (r: usize)
        ensures
            r == self.probes@.len(),
    {
        self.probes.len()
    }

    /// Whether the grid holds no probe.
    pub fn is_empty(&self) -> (r: bool)
        ensures
            r == (self.probes@.len() == 0),
    {
        self.probes.len() == 0
    }

    /// Clamp a raw cell coordinate to the last cell along each axis
    /// (`dims - 2`, or zero for an axis with fewer than two probes), since
    /// the last probe of an axis has no `+1` corner.
    pub fn clamp_cell(&self, raw: [u32; 3]) -> (r: [u32; 3])
        ensures
            forall|k: int| 0 <= k < 3 ==> #[trigger] r[k] == vstd::math::min(
                raw[k] as int,
                if self.grid_dims[k] >= 2 { self.grid_dims[k] - 2 } else { 0 },
            ),
    {
        let lx = self.grid_dims[0].saturating_sub(2);
        let ly = self.grid_dims[1].saturating_sub(2);
        let lz = self.grid_dims[2].saturating_sub(2);
        let r = [
            if raw[0] < lx { raw[0] } else { lx },
            if raw[1] < ly { raw[1] } else { ly },
            if raw[2] < lz { raw[2] } else { lz },
        ];
        assert forall|k: int| 0 <= k < 3 implies #[trigger] r[k] == vstd::math::min(
            raw[k] as int,
            if self.grid_dims[k] >= 2 { self.grid_dims[k] - 2 } else { 0 },
        ) by {
            if k == 0 {
            } else if k == 1 {
            } else {
            }
        }
        r
    }

    /// Probe indices at the 8 corners of a cell, corner `k` being
    /// `(cx + bit0, cy + bit1, cz + bit2)` of `k`.
    pub fn cell_probe_indices(&self, cell: [u32; 3]) -> (r: [usize; 8])
        requires
            valid_cell(self.grid_dims, cell),
            self.probes@.len() == probe_count(self.grid_dims),
        ensures
            forall|k: int| 0 <= k < 8 ==> #[trigger] r[k] == corner_index(self.grid_dims, cell, k),
            forall|k: int| 0 <= k < 8 ==> #[trigger] r[k] < self.probes@.len(),
    {
        let n = self.probes.len();
        let sx = self.grid_dims[0] as usize;
        let sy = self.grid_dims[1] as usize;
        let sz = self.grid_dims[2] as usize;
        let x0 = cell[0] as usize;
        let y0 = cell[1] as usize;
        let z0 = cell[2] as usize;
        let x1 = x0 + 1;
        let y1 = y0 + 1;
        let z1 = z0 + 1;
        proof {
            lemma_probe_index_in_range(sx as int, sy as int, sz as int, x1 as int, y1 as int, z1 as int);
            lemma_probe_index_in_range(sx as int, sy as int, sz as int, x0 as int, y0 as int, z0 as int);
            assert(z0 * sy * sx <= z1 * sy * sx) by (nonlinear_arith)
                requires
                    z0 <= z1,
            ;
            assert(y0 * sx <= y1 * sx) by (nonlinear_arith)
                requires
                    y0 <= y1,
            ;
            assert(probe_count(self.grid_dims) == sx * sy * sz);
            lemma_probe_index_in_range(sx as int, sy as int, sz as int, 0, 0, z1 as int);
            assert(z1 * sy <= z1 * sy * sx) by (nonlinear_arith)
                requires
                    sx >= 1,
                    z1 >= 0,
                    sy >= 0,
            ;
            assert(z0 * sy <= z1 * sy) by (nonlinear_arith)
                requires
                    z0 <= z1,
                    sy >= 0,
            ;
        }
        let plane = z0 * sy * sx;
        let plane1 = z1 * sy * sx;
        let row = y0 * sx;
        let row1 = y1 * sx;
        let r = [
            plane + row + x0,
            plane + row + x1,
            plane + row1 + x0,
            plane + row1 + x1,
            plane1 + row + x0,
            plane1 + row + x1,
            plane1 + row1 + x0,
            plane1 + row1 + x1,
        ];
        assert forall|k: int| 0 <= k < 8 implies #[trigger] r[k] == corner_index(self.grid_dims, cell, k) && r[k] < n by {
            if k == 0 {
            } else if k == 1 {
            } else if k == 2 {
            } else if k == 3 {
            } else if k == 4 {
            } else if k == 5 {
            } else if k == 6 {
            } else {
            }
        }
        r
    }

    /// Index of the probe at the cell corner picked by `upper` (per axis:
    /// `true` takes the `+1` side): the nearest probe when `upper[k]` says
    /// whether the position lies in the upper half of the cell along axis `k`.
    pub fn nearest_probe_index(&self, cell: [u32; 3], upper: [bool; 3]) -> (r: usize)
        requires
            valid_cell(self.grid_dims, cell),
            self.probes@.len() == probe_count(self.grid_dims),
        ensures
            r == probe_index(
                self.grid_dims,
                cell[0] + if upper[0] { 1int } else { 0 },
                cell[1] + if upper[1] { 1int } else { 0 },
                cell[2] + if upper[2] { 1int } else { 0 },
            ),
            r < self.probes@.len(),
    {
        let n = self.probes.len();
        let sx = self.grid_dims[0] as usize;
        let sy = self.grid_dims[1] as usize;
        let sz = self.grid_dims[2] as usize;
        let nx = if upper[0] { cell[0] as usize + 1 } else { cell[0] as usize };
        let ny = if upper[1] { cell[1] as usize + 1 } else { cell[1] as usize };
        let nz = if upper[2] { cell[2] as usize + 1 } else { cell[2] as usize };
        proof {
            lemma_probe_index_in_range(sx as int, sy as int, sz as int, nx as int, ny as int, nz as int);
            lemma_probe_index_in_range(sx as int, sy as int, sz as int, 0, 0, nz as int);
            assert(probe_count(self.grid_dims) == sx * sy * sz);
            assert(nz * sy <= nz * sy * sx) by (nonlinear_arith)
                requires
                    sx >= 1,
                    nz >= 0,
                    sy >= 0,
            ;
        }
        nz * sy * sx + ny * sx + nx
    }
}

} // verus!
