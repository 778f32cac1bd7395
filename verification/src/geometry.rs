//! Launch geometry: the two-level thread-grouping extents (a grid of blocks,
//! a block of threads) passed at launch time, their validity against the
//! device limits, and the ceiling division that sizes a grid for `n` elements.

use vstd::prelude::*;
use crate::device::DeviceProps;

verus! {

/// The extent of the grid of blocks, in one to three dimensions.
#[derive(Clone, Copy, Debug, PartialEq, Eq, Structural)]
pub struct Grid {
    pub x: u32,
    pub y: u32,
    pub z: u32,
}

/// The extent of one block of threads, in one to three dimensions.
#[derive(Clone, Copy, Debug, PartialEq, Eq, Structural)]
pub struct Block {
    pub x: u32,
    pub y: u32,
    pub z: u32,
}

impl Grid {
    /// A one-dimensional grid of `nx` blocks.
    pub fn x(nx: u32) -> (g: Grid)
        ensures
            g == (Grid { x: nx, y: 1, z: 1 }),
    {
        Grid { x: nx, y: 1, z: 1 }
    }

    /// A two-dimensional grid of `nx` by `ny` blocks.
    pub fn xy(nx: u32, ny: u32) -> (g: Grid)
        ensures
            g == (Grid { x: nx, y: ny, z: 1 }),
    {
        Grid { x: nx, y: ny, z: 1 }
    }

    /// A three-dimensional grid of `nx` by `ny` by `nz` blocks.
    pub fn xyz(nx: u32, ny: u32, nz: u32) -> (g: Grid)
        ensures
            g == (Grid { x: nx, y: ny, z: nz }),
    {
        Grid { x: nx, y: ny, z: nz }
    }
}

impl Block {
    /// A one-dimensional block of `nx` threads.
    pub fn x(nx: u32) -> (b: Block)
        ensures
            b == (Block { x: nx, y: 1, z: 1 }),
    {
        Block { x: nx, y: 1, z: 1 }
    }

    /// A two-dimensional block of `nx` by `ny` threads.
    pub fn xy(nx: u32, ny: u32) -> (b: Block)
        ensures
            b == (Block { x: nx, y: ny, z: 1 }),
    {
        Block { x: nx, y: ny, z: 1 }
    }

    /// A three-dimensional block of `nx` by `ny` by `nz` threads.
    pub fn xyz(nx: u32, ny: u32, nz: u32) -> (b: Block)
        ensures
            b == (Block { x: nx, y: ny, z: nz }),
    {
        Block { x: nx, y: ny, z: nz }
    }
}

/// The number of threads in one block.
pub open spec fn block_threads(block: Block) -> int {
    block.x * block.y * block.z
}

/// A launch geometry is valid for a device when every extent is at least one,
/// each grid extent is within the device's grid limits, and the block's
/// thread count does not exceed the device's maximum threads per block.
pub open spec fn geometry_ok(props: DeviceProps, grid: Grid, block: Block) -> bool {
    &&& 1 <= grid.x <= props.max_grid_dim_x
    &&& 1 <= grid.y <= props.max_grid_dim_y
    &&& 1 <= grid.z <= props.max_grid_dim_z
    &&& 1 <= block.x
    &&& 1 <= block.y
    &&& 1 <= block.z
    &&& block_threads(block) <= props.max_threads_per_block
}

/// Decides whether a launch geometry is valid for a device.
pub fn check_geometry(props: &DeviceProps, grid: Grid, block: Block) -> (ok: bool)
    ensures
        ok == geometry_ok(*props, grid, block),
{
    if grid.x < 1 || grid.x > props.max_grid_dim_x || grid.y < 1 || grid.y > props.max_grid_dim_y
        || grid.z < 1 || grid.z > props.max_grid_dim_z {
        return false;
    }
    if block.x < 1 || block.y < 1 || block.z < 1 {
        return false;
    }
    proof {
        assert((block.x as int) * (block.y as int) <= 0xffff_ffff * 0xffff_ffff)
            by (nonlinear_arith)
            requires
                0 <= block.x <= 0xffff_ffffu64,
                0 <= block.y <= 0xffff_ffffu64,
        ;
    }
    let xy: u64 = (block.x as u64) * (block.y as u64);
    if xy > props.max_threads_per_block as u64 {
        proof {
            assert(block.x * block.y * block.z >= block.x * block.y) by (nonlinear_arith)
                requires
                    block.z >= 1,
                    block.x >= 0,
                    block.y >= 0,
            ;
        }
        return false;
    }
    proof {
        assert((xy as int) * (block.z as int) <= 0xffff_ffff * 0xffff_ffff) by (nonlinear_arith)
            requires
                0 <= xy <= 0xffff_ffffu64,
                0 <= block.z <= 0xffff_ffffu64,
        ;
    }
    let xyz: u64 = xy * (block.z as u64);
    xyz <= props.max_threads_per_block as u64
}

/// The least number of blocks of `nthreads` threads that cover `n` elements:
/// ceiling division of `n` by `nthreads`.
pub open spec fn spec_blocks_for(n: int, nthreads: int) -> int
    recommends
        nthreads >= 1,
{
    (n + nthreads - 1) / nthreads
}

/// Sizes a one-dimensional grid for `n` elements: the least number of blocks
/// of `nthreads` threads whose total thread count is at least `n`.
pub fn blocks_for(n: u32, nthreads: u32) -> (r: u32)
    requires
        nthreads >= 1,
    ensures
        r == spec_blocks_for(n as int, nthreads as int),
        r * nthreads >= n,
        n >= 1 ==> (r - 1) * nthreads < n,
{
    let r = if n == 0 {
        0
    } else {
        (n - 1) / nthreads + 1
    };
    proof {
        assert(r == spec_blocks_for(n as int, nthreads as int) && r * nthreads >= n && (n >= 1
            ==> (r - 1) * nthreads < n)) by (nonlinear_arith)
            requires
                nthreads >= 1,
                n >= 0,
                r == if n == 0 {
                    0int
                } else {
                    (n - 1) as int / nthreads as int + 1
                },
                spec_blocks_for(n as int, nthreads as int) == (n + nthreads - 1) as int
                    / nthreads as int,
        ;
    }
    r
}

} // verus!
