//! The laws the library guarantees across operations: each proof function
//! here states one guarantee over the same spec functions the operations'
//! own contracts use, so it holds of every run of the executable code.

use vstd::prelude::*;
use vstd::arithmetic::div_mod::{lemma_fundamental_div_mod_converse, lemma_div_is_ordered,
    lemma_div_multiples_vanish, lemma_mod_bound, lemma_multiply_divide_lt};
use crate::bytes::{elem_u32, lemma_u32_le_round_trip};
use crate::context::transfer;
use crate::kernels::{min_int, pixel_luma, wrapping_sum};
use crate::launch::{add_out, copy_out, gray_out};

verus! {

/// For a launch whose geometry covers all `n` elements, every element of the
/// elementwise-add kernel's output buffer equals the host-computed wrapping
/// 32-bit sum `a[i] + b[i]` — the same `wrapping_sum` the host reference
/// `host_elementwise_add` is proved to compute — whether or not `n` is a
/// multiple of the block size.
pub proof fn lemma_add_kernel_matches_host(a0: Seq<u8>, b0: Seq<u8>, c0: Seq<u8>, n: int, cov: int)
    requires
        0 <= n <= cov,
        4 * n <= a0.len(),
        4 * n <= b0.len(),
        4 * n <= c0.len(),
    ensures
        forall|i: int|
            0 <= i < n ==> elem_u32(add_out(a0, b0, c0, n, cov), i) == wrapping_sum(
                elem_u32(a0, i),
                elem_u32(b0, i),
            ),
{
    let out = add_out(a0, b0, c0, n, cov);
    assert forall|i: int| 0 <= i < n implies elem_u32(out, i) == wrapping_sum(
        elem_u32(a0, i),
        elem_u32(b0, i),
    ) by {
        lemma_fundamental_div_mod_converse(4 * i, 4, i, 0);
        lemma_fundamental_div_mod_converse(4 * i + 1, 4, i, 1);
        lemma_fundamental_div_mod_converse(4 * i + 2, 4, i, 2);
        lemma_fundamental_div_mod_converse(4 * i + 3, 4, i, 3);
        lemma_u32_le_round_trip(wrapping_sum(elem_u32(a0, i), elem_u32(b0, i)));
    }
}

/// For a launch whose geometry covers all `n` elements and buffers of exactly
/// `n` elements, the elementwise-copy kernel's output buffer is byte-identical
/// to the source buffer.
pub proof fn lemma_copy_kernel_identity(src0: Seq<u8>, dst0: Seq<u8>, n: int, cov: int)
    requires
        0 <= n <= cov,
        src0.len() == 4 * n,
        dst0.len() == 4 * n,
    ensures
        copy_out(src0, dst0, n, cov) == src0,
{
    assert(copy_out(src0, dst0, n, cov) =~= src0);
}

/// For a launch whose geometry covers the whole image, every pixel of the
/// rgba-to-gray kernel's output equals the CPU reference formula — the same
/// `pixel_luma` (integer truncation, not rounding) the host reference
/// `host_rgba_to_gray` is proved to compute.
pub proof fn lemma_gray_kernel_matches_host(
    rgba0: Seq<u8>,
    gray0: Seq<u8>,
    w: int,
    h: int,
    covx: int,
    covy: int,
)
    requires
        0 < w,
        0 < h,
        covx >= w,
        covy >= h,
        w * h <= gray0.len(),
    ensures
        forall|i: int|
            0 <= i < w * h ==> gray_out(rgba0, gray0, w, h, covx, covy)[i] == pixel_luma(rgba0, i),
{
    let out = gray_out(rgba0, gray0, w, h, covx, covy);
    assert forall|i: int| 0 <= i < w * h implies out[i] == pixel_luma(rgba0, i) by {
        lemma_multiply_divide_lt(i, w, h);
        lemma_mod_bound(i, w);
        assert(min_int(covx, w) == w);
        assert(min_int(covy, h) == h);
    }
}

/// Whatever the launch geometry, the rgba-to-gray kernel never writes outside
/// the `width * height` pixels of the image: every byte of the output buffer
/// beyond the image domain is untouched.
pub proof fn lemma_gray_kernel_no_oob(
    rgba0: Seq<u8>,
    gray0: Seq<u8>,
    w: int,
    h: int,
    covx: int,
    covy: int,
)
    requires
        0 < w,
        0 < h,
    ensures
        gray_out(rgba0, gray0, w, h, covx, covy).len() == gray0.len(),
        forall|i: int|
            w * h <= i < gray0.len() ==> gray_out(rgba0, gray0, w, h, covx, covy)[i] == gray0[i],
{
    let out = gray_out(rgba0, gray0, w, h, covx, covy);
    assert forall|i: int| w * h <= i < gray0.len() implies out[i] == gray0[i] by {
        lemma_div_multiples_vanish(h, w);
        lemma_div_is_ordered(w * h, i, w);
        assert(i / w >= h);
        assert(min_int(covy, h) <= h);
    }
}

/// The round-trip guarantee of the memory manager: copying any buffer host to
/// device and then device to host into a same-sized buffer reproduces the
/// original bytes exactly, whatever either buffer held before.
pub proof fn lemma_copy_round_trip(data: Seq<u8>, dev0: Seq<u8>, host0: Seq<u8>)
    requires
        data.len() <= dev0.len(),
        host0.len() == data.len(),
    ensures
        transfer(host0, transfer(dev0, data, data.len() as int), data.len() as int) == data,
{
    let n = data.len() as int;
    let dev1 = transfer(dev0, data, n);
    assert(dev1.take(n) =~= data);
    assert(transfer(host0, dev1, n) =~= data);
}

} // verus!
