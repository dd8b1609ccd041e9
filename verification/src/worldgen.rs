use vstd::prelude::*;

verus! {

/// The number of terrain samples along each side of the height map.
pub const TERRAIN_N: usize = 2000;

/// The seed of the random gradient of grid cell (`ix`, `iy`): `ix` in the high
/// 32 bits, `iy` (sign-extended) or-ed into the whole word.
pub open spec fn spec_gradient_seed(ix: i32, iy: i32) -> u64 {
    ((ix as u64) << 32u64) | (iy as u64)
}

/// The seed of the random gradient of grid cell (`ix`, `iy`).
pub fn gradient_seed(ix: i32, iy: i32) -> (r: u64)
    ensures
        r == spec_gradient_seed(ix, iy),
{
    ((ix as u64) << 32u64) | (iy as u64)
}

/// Cells with coordinates that are not negative get different seeds, so their
/// gradients come from different random streams.
pub proof fn law_gradient_seed_distinct(ax: i32, ay: i32, bx: i32, bz: i32)
    requires
        0 <= ax,
        0 <= ay,
        0 <= bx,
        0 <= bz,
        ax != bx || ay != bz,
    ensures
        spec_gradient_seed(ax, ay) != spec_gradient_seed(bx, bz),
{
    let a = ax as u64;
    let b = ay as u64;
    let c = bx as u64;
    let d = bz as u64;
    assert(a < 0x8000_0000 && b < 0x8000_0000 && c < 0x8000_0000 && d < 0x8000_0000);
    assert((a != c || b != d) ==> ((a << 32u64) | b) != ((c << 32u64) | d)) by (bit_vector)
        requires
            a < 0x8000_0000,
            b < 0x8000_0000,
            c < 0x8000_0000,
            d < 0x8000_0000,
    ;
}

/// The position in the row-major height map of sample (`x`, `z`).
pub fn grid_index(x: usize, z: usize) -> (r: usize)
    requires
        x < TERRAIN_N,
        z < TERRAIN_N,
    ensures
        r == x * TERRAIN_N + z,
        r < TERRAIN_N * TERRAIN_N,
{
    proof {
        assert(x * 2000 + z < 2000 * 2000) by (nonlinear_arith)
            requires
                x < 2000,
                z < 2000,
        ;
    }
    x * TERRAIN_N + z
}

} // verus!
