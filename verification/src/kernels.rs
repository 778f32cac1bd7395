//! The device-side kernel contract: the fixed indexing rule (`index =
//! block_dim * block_idx + thread_idx`, 2D analogous), the mandatory
//! bounds check every kernel performs before touching memory, the exact
//! per-element semantics of each built-in kernel, and the matching host
//! (CPU) reference computations.

use vstd::prelude::*;
use vstd::pervasive::VecAdditionalExecFns;
use crate::bytes::{elem_u32, u32_le_byte, read_elem_u32, write_elem_u32, lemma_u32_le_bytes_of};

verus! {

/// One 4-byte pixel, channels ordered red, green, blue, alpha, no padding.
#[derive(Clone, Copy, Debug, PartialEq, Eq, Structural)]
pub struct Rgba {
    pub r: u8,
    pub g: u8,
    pub b: u8,
    pub a: u8,
}

/// The smaller of two values.
pub open spec fn min_int(a: int, b: int) -> int {
    if a < b {
        a
    } else {
        b
    }
}

/// 32-bit addition that wraps around on overflow.
pub open spec fn wrapping_sum(a: u32, b: u32) -> u32 {
    if a + b > u32::MAX {
        (a + b - 0x1_0000_0000) as u32
    } else {
        (a + b) as u32
    }
}

/// The linear index a device thread computes from its block index, block
/// dimension and thread index: `block_dim * block_idx + thread_idx`.
pub open spec fn linear_index(block_dim: u32, block_idx: u32, thread_idx: u32) -> int {
    block_dim * block_idx + thread_idx
}

/// The grayscale value of a pixel: the integer part (truncation, not
/// rounding) of `0.299 r + 0.589 g + 0.114 b`, computed exactly as
/// `(299 r + 589 g + 114 b) / 1000`.
pub open spec fn luma(r: u8, g: u8, b: u8) -> u8 {
    ((299 * r + 589 * g + 114 * b) / 1000) as u8
}

/// The grayscale value of pixel `i` of a contiguous row-major RGBA buffer.
pub open spec fn pixel_luma(rgba: Seq<u8>, i: int) -> u8
    recommends
        0 <= i,
        4 * i + 4 <= rgba.len(),
{
    luma(rgba[4 * i], rgba[4 * i + 1], rgba[4 * i + 2])
}

/// Computes the grayscale value of one pixel from its red, green and blue
/// channels.
pub fn luma_of(r: u8, g: u8, b: u8) -> (v: u8)
    ensures
        v == luma(r, g, b),
{
    let s: u32 = 299 * (r as u32) + 589 * (g as u32) + 114 * (b as u32);
    (s / 1000) as u8
}

/// Computes the linear thread index of the kernel ABI without overflow.
fn linear_index_of(block_dim: u32, block_idx: u32, thread_idx: u32) -> (i: u64)
    ensures
        i == linear_index(block_dim, block_idx, thread_idx),
{
    proof {
        assert((block_dim as int) * (block_idx as int) <= 0xffff_ffff * 0xffff_ffff)
            by (nonlinear_arith)
            requires
                0 <= block_dim <= 0xffff_ffffu64,
                0 <= block_idx <= 0xffff_ffffu64,
        ;
    }
    (block_dim as u64) * (block_idx as u64) + (thread_idx as u64)
}

/// One device thread of the elementwise-add kernel: computes its linear
/// index, and only when the mandatory `index < n` bounds check passes writes
/// element `index` of `c` as the wrapping 32-bit sum of the matching elements
/// of `a0` and `b0` — the values those buffers held when the launch began.
pub fn add_kernel_thread(
    block_idx: u32,
    block_dim: u32,
    thread_idx: u32,
    a0: &Vec<u8>,
    b0: &Vec<u8>,
    c: &mut Vec<u8>,
    n: u32,
) -> (wrote: bool)
    requires
        4 * n <= a0@.len(),
        4 * n <= b0@.len(),
        4 * n <= old(c)@.len(),
    ensures
        final(c)@.len() == old(c)@.len(),
        wrote == (linear_index(block_dim, block_idx, thread_idx) < n),
        !wrote ==> final(c)@ == old(c)@,
        wrote ==> forall|j: int|
            0 <= j < old(c)@.len() ==> final(c)@[j] == {
                let i = linear_index(block_dim, block_idx, thread_idx);
                if 4 * i <= j < 4 * i + 4 {
                    u32_le_byte(wrapping_sum(elem_u32(a0@, i), elem_u32(b0@, i)), j - 4 * i)
                } else {
                    old(c)@[j]
                }
            },
{
    let _clen: usize = c.len();
    let i = linear_index_of(block_dim, block_idx, thread_idx);
    if i < n as u64 {
        let idx = i as usize;
        let av = read_elem_u32(a0, idx);
        let bv = read_elem_u32(b0, idx);
        write_elem_u32(c, idx, av.wrapping_add(bv));
        true
    } else {
        false
    }
}

/// One device thread of the elementwise-copy kernel: computes its linear
/// index, and only when the mandatory `index < n` bounds check passes copies
/// element `index` of `src0` — its value when the launch began — into `dst`.
pub fn memcpy_kernel_thread(
    block_idx: u32,
    block_dim: u32,
    thread_idx: u32,
    src0: &Vec<u8>,
    dst: &mut Vec<u8>,
    n: u32,
) -> (wrote: bool)
    requires
        4 * n <= src0@.len(),
        4 * n <= old(dst)@.len(),
    ensures
        final(dst)@.len() == old(dst)@.len(),
        wrote == (linear_index(block_dim, block_idx, thread_idx) < n),
        !wrote ==> final(dst)@ == old(dst)@,
        wrote ==> forall|j: int|
            0 <= j < old(dst)@.len() ==> final(dst)@[j] == {
                let i = linear_index(block_dim, block_idx, thread_idx);
                if 4 * i <= j < 4 * i + 4 {
                    src0@[j]
                } else {
                    old(dst)@[j]
                }
            },
{
    let _dlen: usize = dst.len();
    let i = linear_index_of(block_dim, block_idx, thread_idx);
    if i < n as u64 {
        let idx = i as usize;
        let v = read_elem_u32(src0, idx);
        write_elem_u32(dst, idx, v);
        proof {
            lemma_u32_le_bytes_of(
                src0@[4 * idx as int],
                src0@[4 * idx as int + 1],
                src0@[4 * idx as int + 2],
                src0@[4 * idx as int + 3],
            );
        }
        true
    } else {
        false
    }
}

/// One device thread of the rgba-to-gray kernel: computes its 2D index, and
/// only when the mandatory `x < width && y < height` bounds check passes
/// writes the grayscale value of pixel `y*width + x` of `rgba0` — its value
/// when the launch began — into `gray`.
pub fn rgba2gray_kernel_thread(
    block_idx_x: u32,
    block_dim_x: u32,
    thread_idx_x: u32,
    block_idx_y: u32,
    block_dim_y: u32,
    thread_idx_y: u32,
    rgba0: &Vec<u8>,
    gray: &mut Vec<u8>,
    width: i32,
    height: i32,
) -> (wrote: bool)
    requires
        width > 0 && height > 0 ==> 4 * width * height <= rgba0@.len() && width * height <= old(
            gray,
        )@.len(),
    ensures
        final(gray)@.len() == old(gray)@.len(),
        wrote == {
            let x = linear_index(block_dim_x, block_idx_x, thread_idx_x);
            let y = linear_index(block_dim_y, block_idx_y, thread_idx_y);
            x < width && y < height
        },
        !wrote ==> final(gray)@ == old(gray)@,
        wrote ==> forall|j: int|
            0 <= j < old(gray)@.len() ==> final(gray)@[j] == {
                let x = linear_index(block_dim_x, block_idx_x, thread_idx_x);
                let y = linear_index(block_dim_y, block_idx_y, thread_idx_y);
                if j == y * width + x {
                    pixel_luma(rgba0@, j)
                } else {
                    old(gray)@[j]
                }
            },
{
    let _glen: usize = gray.len();
    let _rlen: usize = rgba0.len();
    let x = linear_index_of(block_dim_x, block_idx_x, thread_idx_x);
    let y = linear_index_of(block_dim_y, block_idx_y, thread_idx_y);
    if width > 0 && height > 0 && x < width as u64 && y < height as u64 {
        proof {
            assert((y as int) * (width as int) + (x as int) <= (width as int) * (height as int) - 1
                && 4 * (width as int) * (height as int) == 4 * ((width as int) * (height as int)))
                by (nonlinear_arith)
                requires
                    0 < width,
                    0 < height,
                    0 <= x < width,
                    0 <= y < height,
            ;
        }
        let j: usize = (y as usize) * (width as usize) + (x as usize);
        let r = rgba0[4 * j];
        let g = rgba0[4 * j + 1];
        let b = rgba0[4 * j + 2];
        let v = luma_of(r, g, b);
        gray.set(j, v);
        true
    } else {
        false
    }
}

/// The host (CPU) reference for the elementwise-add kernel: the wrapping
/// 32-bit sum of matching elements.
pub fn host_elementwise_add(a: &Vec<u32>, b: &Vec<u32>) -> (c: Vec<u32>)
    requires
        a@.len() == b@.len(),
    ensures
        c@.len() == a@.len(),
        forall|i: int| 0 <= i < a@.len() ==> c@[i] == wrapping_sum(a@[i], b@[i]),
{
    let mut out: Vec<u32> = Vec::new();
    let mut i: usize = 0;
    while i < a.len()
        invariant
            i <= a@.len(),
            a@.len() == b@.len(),
            out@.len() == i,
            forall|k: int| 0 <= k < i ==> out@[k] == wrapping_sum(a@[k], b@[k]),
        decreases a@.len() - i,
    {
        out.push(a[i].wrapping_add(b[i]));
        i = i + 1;
    }
    out
}

/// The host (CPU) reference for the rgba-to-gray kernel: the grayscale value
/// of each of the first `npixels` pixels, by the same luma weights and the
/// same truncation as the device kernel.
pub fn host_rgba_to_gray(rgba: &Vec<u8>, npixels: usize) -> (gray: Vec<u8>)
    requires
        4 * npixels <= rgba@.len(),
    ensures
        gray@.len() == npixels,
        forall|i: int| 0 <= i < npixels ==> gray@[i] == pixel_luma(rgba@, i),
{
    let _len: usize = rgba.len();
    let mut out: Vec<u8> = Vec::new();
    let mut i: usize = 0;
    while i < npixels
        invariant
            i <= npixels,
            4 * npixels <= rgba@.len(),
            rgba@.len() <= usize::MAX,
            out@.len() == i,
            forall|k: int| 0 <= k < i ==> out@[k] == pixel_luma(rgba@, k),
        decreases npixels - i,
    {
        out.push(luma_of(rgba[4 * i], rgba[4 * i + 1], rgba[4 * i + 2]));
        i = i + 1;
    }
    out
}

} // verus!
