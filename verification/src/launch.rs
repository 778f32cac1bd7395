//! Kernel launch: geometry validation against the device limits, argument
//! list checking, and execution of the resolved kernel over the whole grid —
//! every covered thread runs the per-thread kernel contract, so the effect on
//! device memory is pinned down exactly.
//!
//! Launches are conceptually asynchronous; in this model the effect is
//! applied before the launch returns, which realizes the ordering contract
//! that a following device-to-host copy observes the kernel's writes.

use vstd::prelude::*;
use vstd::pervasive::VecAdditionalExecFns;
use vstd::arithmetic::div_mod::{lemma_fundamental_div_mod, lemma_fundamental_div_mod_converse,
    lemma_multiply_divide_lt};
use crate::args::Arg;
use crate::bytes::{copy_bytes, elem_u32, u32_le_byte};
use crate::context::{Context, DevicePtr, lemma_live_bytes_update};
use crate::error::Error;
use crate::geometry::{Block, Grid, check_geometry, geometry_ok};
use crate::kernels::{add_kernel_thread, memcpy_kernel_thread, rgba2gray_kernel_thread,
    linear_index, min_int, pixel_luma, wrapping_sum};
use crate::module::{Function, KernelKind};

verus! {

/// The number of linear thread indices a launch covers along x:
/// `grid.x * block.x`.
pub open spec fn covered_x(grid: Grid, block: Block) -> int {
    grid.x * block.x
}

/// The number of linear thread indices a launch covers along y:
/// `grid.y * block.y`.
pub open spec fn covered_y(grid: Grid, block: Block) -> int {
    grid.y * block.y
}

/// The bytes the elementwise-add kernel leaves in its output buffer: for
/// every element below both `n` and the covered thread count, the wrapping
/// 32-bit sum of the input elements; every other byte untouched.
pub open spec fn add_out(a0: Seq<u8>, b0: Seq<u8>, c0: Seq<u8>, n: int, cov: int) -> Seq<u8> {
    Seq::new(
        c0.len(),
        |j: int|
            if j < 4 * min_int(n, cov) {
                u32_le_byte(wrapping_sum(elem_u32(a0, j / 4), elem_u32(b0, j / 4)), j % 4)
            } else {
                c0[j]
            },
    )
}

/// The bytes the elementwise-copy kernel leaves in its output buffer: the
/// source bytes for every element below both `n` and the covered thread
/// count; every other byte untouched.
pub open spec fn copy_out(src0: Seq<u8>, dst0: Seq<u8>, n: int, cov: int) -> Seq<u8> {
    Seq::new(
        dst0.len(),
        |j: int|
            if j < 4 * min_int(n, cov) {
                src0[j]
            } else {
                dst0[j]
            },
    )
}

/// The bytes the rgba-to-gray kernel leaves in its output buffer: the
/// grayscale value of every pixel whose x and y fall below both the image
/// extent and the covered thread counts; every other byte untouched.
pub open spec fn gray_out(rgba0: Seq<u8>, gray0: Seq<u8>, w: int, h: int, covx: int, covy: int)
    -> Seq<u8>
    recommends
        w > 0,
{
    Seq::new(
        gray0.len(),
        |j: int|
            if j % w < min_int(covx, w) && j / w < min_int(covy, h) {
                pixel_luma(rgba0, j)
            } else {
                gray0[j]
            },
    )
}

/// An argument list shaped for the elementwise-add kernel: output, the two
/// inputs, and the element count.
pub open spec fn add_args_ok(args: Seq<Arg>) -> bool {
    args.len() == 4 && args[0] is Ptr && args[1] is Ptr && args[2] is Ptr && args[3] is U32
}

/// An argument list shaped for the elementwise-copy kernel: destination,
/// source, and the element count.
pub open spec fn memcpy_args_ok(args: Seq<Arg>) -> bool {
    args.len() == 3 && args[0] is Ptr && args[1] is Ptr && args[2] is U32
}

/// An argument list shaped for the rgba-to-gray kernel: pixel input, gray
/// output, width, height.
pub open spec fn rgba2gray_args_ok(args: Seq<Arg>) -> bool {
    args.len() == 4 && args[0] is Ptr && args[1] is Ptr && args[2] is I32 && args[3] is I32
}

/// What must hold of a context for an elementwise-add launch to execute:
/// well-shaped arguments, live buffers, each at least `4 n` bytes. Anything
/// less faults on the device and is reported as `LaunchFailure`.
pub open spec fn add_precheck(ctx: Context, args: Seq<Arg>) -> bool {
    &&& add_args_ok(args)
    &&& ctx.is_live(args[0]->Ptr_0)
    &&& ctx.is_live(args[1]->Ptr_0)
    &&& ctx.is_live(args[2]->Ptr_0)
    &&& 4 * (args[3]->U32_0 as int) <= ctx.data_at(args[0]->Ptr_0).len()
    &&& 4 * (args[3]->U32_0 as int) <= ctx.data_at(args[1]->Ptr_0).len()
    &&& 4 * (args[3]->U32_0 as int) <= ctx.data_at(args[2]->Ptr_0).len()
}

/// The context after a successful elementwise-add launch: only the output
/// allocation changed, to `add_out` of the buffers as the launch found them.
pub open spec fn add_result(ctx0: Context, ctx1: Context, args: Seq<Arg>, grid: Grid, block: Block)
    -> bool {
    &&& ctx1.allocations@.len() == ctx0.allocations@.len()
    &&& forall|s: int|
        0 <= s < ctx0.allocations@.len() && s != args[2]->Ptr_0.slot ==> ctx1.allocations@[s]
            == ctx0.allocations@[s]
    &&& ctx1.is_live(args[2]->Ptr_0)
    &&& ctx1.data_at(args[2]->Ptr_0) == add_out(
        ctx0.data_at(args[0]->Ptr_0),
        ctx0.data_at(args[1]->Ptr_0),
        ctx0.data_at(args[2]->Ptr_0),
        args[3]->U32_0 as int,
        covered_x(grid, block),
    )
    &&& ctx1.used == ctx0.used
}

/// What must hold for an elementwise-copy launch to execute: well-shaped
/// arguments, live buffers, each at least `4 n` bytes.
pub open spec fn memcpy_precheck(ctx: Context, args: Seq<Arg>) -> bool {
    &&& memcpy_args_ok(args)
    &&& ctx.is_live(args[0]->Ptr_0)
    &&& ctx.is_live(args[1]->Ptr_0)
    &&& 4 * (args[2]->U32_0 as int) <= ctx.data_at(args[0]->Ptr_0).len()
    &&& 4 * (args[2]->U32_0 as int) <= ctx.data_at(args[1]->Ptr_0).len()
}

/// The context after a successful elementwise-copy launch: only the
/// destination allocation changed, to `copy_out` of the buffers as the launch
/// found them.
pub open spec fn memcpy_result(
    ctx0: Context,
    ctx1: Context,
    args: Seq<Arg>,
    grid: Grid,
    block: Block,
) -> bool {
    &&& ctx1.allocations@.len() == ctx0.allocations@.len()
    &&& forall|s: int|
        0 <= s < ctx0.allocations@.len() && s != args[0]->Ptr_0.slot ==> ctx1.allocations@[s]
            == ctx0.allocations@[s]
    &&& ctx1.is_live(args[0]->Ptr_0)
    &&& ctx1.data_at(args[0]->Ptr_0) == copy_out(
        ctx0.data_at(args[1]->Ptr_0),
        ctx0.data_at(args[0]->Ptr_0),
        args[2]->U32_0 as int,
        covered_x(grid, block),
    )
    &&& ctx1.used == ctx0.used
}

/// What must hold for an rgba-to-gray launch to execute: well-shaped
/// arguments, live buffers, and — whenever the image domain is nonempty —
/// room for `width * height` pixels in both buffers.
pub open spec fn rgba2gray_precheck(ctx: Context, args: Seq<Arg>) -> bool {
    &&& rgba2gray_args_ok(args)
    &&& ctx.is_live(args[0]->Ptr_0)
    &&& ctx.is_live(args[1]->Ptr_0)
    &&& {
        let w = args[2]->I32_0 as int;
        let h = args[3]->I32_0 as int;
        w > 0 && h > 0 ==> 4 * w * h <= ctx.data_at(args[0]->Ptr_0).len() && w * h <= ctx.data_at(
            args[1]->Ptr_0,
        ).len()
    }
}

/// The context after a successful rgba-to-gray launch: with a nonempty image
/// domain only the gray allocation changed, to `gray_out` of the buffers as
/// the launch found them; with an empty domain every thread fails its bounds
/// check and nothing changes.
pub open spec fn rgba2gray_result(
    ctx0: Context,
    ctx1: Context,
    args: Seq<Arg>,
    grid: Grid,
    block: Block,
) -> bool {
    let w = args[2]->I32_0 as int;
    let h = args[3]->I32_0 as int;
    if w > 0 && h > 0 {
        &&& ctx1.allocations@.len() == ctx0.allocations@.len()
        &&& forall|s: int|
            0 <= s < ctx0.allocations@.len() && s != args[1]->Ptr_0.slot ==> ctx1.allocations@[s]
                == ctx0.allocations@[s]
        &&& ctx1.is_live(args[1]->Ptr_0)
        &&& ctx1.data_at(args[1]->Ptr_0) == gray_out(
            ctx0.data_at(args[0]->Ptr_0),
            ctx0.data_at(args[1]->Ptr_0),
            w,
            h,
            covered_x(grid, block),
            covered_y(grid, block),
        )
        &&& ctx1.used == ctx0.used
    } else {
        ctx1 == ctx0
    }
}

/// A private full copy of the bytes a live allocation holds, `None` for a
/// dead handle: the snapshot a launch reads, so every thread sees the buffers
/// as the launch found them.
fn snapshot(ctx: &Context, p: DevicePtr) -> (r: Option<Vec<u8>>)
    ensures
        match r {
            Some(v) => ctx.is_live(p) && v@ == ctx.data_at(p),
            None => !ctx.is_live(p),
        },
{
    if p.slot >= ctx.allocations.len() {
        return None;
    }
    match &ctx.allocations[p.slot] {
        Some(v) => Some(copy_bytes(v.as_slice())),
        None => None,
    }
}

impl Function {
    /// Enqueues this kernel with the given argument list and geometry.
    /// Geometry beyond the device limits fails with `InvalidValue` before any
    /// device-side execution; a launch whose arguments are ill-shaped, name a
    /// dead allocation, or overrun a buffer faults and fails with
    /// `LaunchFailure`, changing nothing. Otherwise the kernel's exact effect
    /// — `add_result`, `memcpy_result` or `rgba2gray_result` — holds of the
    /// context when the launch returns.
    pub fn launch(&self, ctx: &mut Context, args: &Vec<Arg>, grid: Grid, block: Block) -> (r:
        Result<(), Error>)
        requires
            old(ctx).wf(),
        ensures
            final(ctx).wf(),
            final(ctx).props == old(ctx).props,
            final(ctx).device_index == old(ctx).device_index,
            !geometry_ok(old(ctx).props, grid, block) ==> r == Err::<(), Error>(Error::InvalidValue)
                && *final(ctx) == *old(ctx),
            geometry_ok(old(ctx).props, grid, block) ==> match self.kind {
                KernelKind::ElementwiseAdd => {
                    &&& add_precheck(*old(ctx), args@) ==> r == Ok::<(), Error>(()) && add_result(
                        *old(ctx),
                        *final(ctx),
                        args@,
                        grid,
                        block,
                    )
                    &&& !add_precheck(*old(ctx), args@) ==> r == Err::<(), Error>(
                        Error::LaunchFailure,
                    ) && *final(ctx) == *old(ctx)
                },
                KernelKind::ElementwiseCopy => {
                    &&& memcpy_precheck(*old(ctx), args@) ==> r == Ok::<(), Error>(())
                        && memcpy_result(*old(ctx), *final(ctx), args@, grid, block)
                    &&& !memcpy_precheck(*old(ctx), args@) ==> r == Err::<(), Error>(
                        Error::LaunchFailure,
                    ) && *final(ctx) == *old(ctx)
                },
                KernelKind::RgbaToGray => {
                    &&& rgba2gray_precheck(*old(ctx), args@) ==> r == Ok::<(), Error>(())
                        && rgba2gray_result(*old(ctx), *final(ctx), args@, grid, block)
                    &&& !rgba2gray_precheck(*old(ctx), args@) ==> r == Err::<(), Error>(
                        Error::LaunchFailure,
                    ) && *final(ctx) == *old(ctx)
                },
            },
    {
        if !check_geometry(&ctx.props, grid, block) {
            return Err(Error::InvalidValue);
        }
        match self.kind {
            KernelKind::ElementwiseAdd => run_add(ctx, args, grid, block),
            KernelKind::ElementwiseCopy => run_memcpy(ctx, args, grid, block),
            KernelKind::RgbaToGray => run_rgba2gray(ctx, args, grid, block),
        }
    }
}

/// Runs the elementwise-add kernel over the covered grid, one thread at a
/// time in linear order; threads beyond `min(n, covered)` leave no trace and
/// are skipped.
fn run_add(ctx: &mut Context, args: &Vec<Arg>, grid: Grid, block: Block) -> (r: Result<(), Error>)
    requires
        old(ctx).wf(),
        geometry_ok(old(ctx).props, grid, block),
    ensures
        final(ctx).wf(),
        final(ctx).props == old(ctx).props,
        final(ctx).device_index == old(ctx).device_index,
        add_precheck(*old(ctx), args@) ==> r == Ok::<(), Error>(()) && add_result(
            *old(ctx),
            *final(ctx),
            args@,
            grid,
            block,
        ),
        !add_precheck(*old(ctx), args@) ==> r == Err::<(), Error>(Error::LaunchFailure) && *final(ctx) == *old(ctx),
{
    if args.len() != 4 {
        return Err(Error::LaunchFailure);
    }
    let (pa, pb, pc, n) = match (args[0], args[1], args[2], args[3]) {
        (Arg::Ptr(a), Arg::Ptr(b), Arg::Ptr(c), Arg::U32(n)) => (a, b, c, n),
        _ => {
            return Err(Error::LaunchFailure);
        },
    };
    let a0 = match snapshot(ctx, pa) {
        Some(v) => v,
        None => {
            return Err(Error::LaunchFailure);
        },
    };
    let b0 = match snapshot(ctx, pb) {
        Some(v) => v,
        None => {
            return Err(Error::LaunchFailure);
        },
    };
    let mut cbuf = match snapshot(ctx, pc) {
        Some(v) => v,
        None => {
            return Err(Error::LaunchFailure);
        },
    };
    if (a0.len() as u64) < 4 * (n as u64) || (b0.len() as u64) < 4 * (n as u64) || (
    cbuf.len() as u64) < 4 * (n as u64) {
        return Err(Error::LaunchFailure);
    }
    let ghost c0 = cbuf@;
    let bd: u32 = block.x;
    proof {
        assert((block.x as int) * (grid.x as int) <= 0xffff_ffff * 0xffff_ffff
            && (block.x as int) * (grid.x as int) == covered_x(grid, block)) by (nonlinear_arith)
            requires
                0 <= block.x <= 0xffff_ffffu64,
                0 <= grid.x <= 0xffff_ffffu64,
        ;
    }
    let cov: u64 = (bd as u64) * (grid.x as u64);
    let m: u64 = if (n as u64) < cov {
        n as u64
    } else {
        cov
    };
    let ghost target = add_out(a0@, b0@, c0, n as int, covered_x(grid, block));
    let mut t: u64 = 0;
    while t < m
        invariant
            t <= m,
            m == min_int(n as int, covered_x(grid, block)),
            m <= n,
            cov == covered_x(grid, block),
            bd == block.x,
            bd >= 1,
            4 * (n as int) <= a0@.len(),
            4 * (n as int) <= b0@.len(),
            4 * (n as int) <= c0.len(),
            cbuf@.len() == c0.len(),
            target == add_out(a0@, b0@, c0, n as int, covered_x(grid, block)),
            forall|j: int|
                0 <= j < cbuf@.len() ==> cbuf@[j] == if j < 4 * t {
                    target[j]
                } else {
                    c0[j]
                },
        decreases m - t,
    {
        proof {
            lemma_multiply_divide_lt(t as int, bd as int, grid.x as int);
            lemma_fundamental_div_mod(t as int, bd as int);
        }
        let bi: u32 = (t / (bd as u64)) as u32;
        let ti: u32 = (t % (bd as u64)) as u32;
        let ghost prev = cbuf@;
        add_kernel_thread(bi, bd, ti, &a0, &b0, &mut cbuf, n);
        proof {
            assert(linear_index(bd, bi, ti) == t);
            assert forall|j: int| 0 <= j < cbuf@.len() implies cbuf@[j] == (if j < 4 * (t + 1) {
                target[j]
            } else {
                c0[j]
            }) by {
                if 4 * t <= j < 4 * t + 4 {
                    lemma_fundamental_div_mod_converse(j, 4, t as int, j - 4 * (t as int));
                }
            }
        }
        t = t + 1;
    }
    proof {
        assert(cbuf@ =~= target);
        lemma_live_bytes_update(ctx.allocations@, pc.slot as int, Some(cbuf));
    }
    ctx.allocations.set(pc.slot, Some(cbuf));
    Ok(())
}

/// Runs the elementwise-copy kernel over the covered grid, one thread at a
/// time in linear order; threads beyond `min(n, covered)` leave no trace and
/// are skipped.
fn run_memcpy(ctx: &mut Context, args: &Vec<Arg>, grid: Grid, block: Block) -> (r: Result<
    (),
    Error,
>)
    requires
        old(ctx).wf(),
        geometry_ok(old(ctx).props, grid, block),
    ensures
        final(ctx).wf(),
        final(ctx).props == old(ctx).props,
        final(ctx).device_index == old(ctx).device_index,
        memcpy_precheck(*old(ctx), args@) ==> r == Ok::<(), Error>(()) && memcpy_result(
            *old(ctx),
            *final(ctx),
            args@,
            grid,
            block,
        ),
        !memcpy_precheck(*old(ctx), args@) ==> r == Err::<(), Error>(Error::LaunchFailure)
            && *final(ctx) == *old(ctx),
{
    if args.len() != 3 {
        return Err(Error::LaunchFailure);
    }
    let (pd, ps, n) = match (args[0], args[1], args[2]) {
        (Arg::Ptr(d), Arg::Ptr(s), Arg::U32(n)) => (d, s, n),
        _ => {
            return Err(Error::LaunchFailure);
        },
    };
    let src0 = match snapshot(ctx, ps) {
        Some(v) => v,
        None => {
            return Err(Error::LaunchFailure);
        },
    };
    let mut dbuf = match snapshot(ctx, pd) {
        Some(v) => v,
        None => {
            return Err(Error::LaunchFailure);
        },
    };
    if (src0.len() as u64) < 4 * (n as u64) || (dbuf.len() as u64) < 4 * (n as u64) {
        return Err(Error::LaunchFailure);
    }
    let ghost d0 = dbuf@;
    let bd: u32 = block.x;
    proof {
        assert((block.x as int) * (grid.x as int) <= 0xffff_ffff * 0xffff_ffff
            && (block.x as int) * (grid.x as int) == covered_x(grid, block)) by (nonlinear_arith)
            requires
                0 <= block.x <= 0xffff_ffffu64,
                0 <= grid.x <= 0xffff_ffffu64,
        ;
    }
    let cov: u64 = (bd as u64) * (grid.x as u64);
    let m: u64 = if (n as u64) < cov {
        n as u64
    } else {
        cov
    };
    let ghost target = copy_out(src0@, d0, n as int, covered_x(grid, block));
    let mut t: u64 = 0;
    while t < m
        invariant
            t <= m,
            m == min_int(n as int, covered_x(grid, block)),
            m <= n,
            cov == covered_x(grid, block),
            bd == block.x,
            bd >= 1,
            4 * (n as int) <= src0@.len(),
            4 * (n as int) <= d0.len(),
            dbuf@.len() == d0.len(),
            target == copy_out(src0@, d0, n as int, covered_x(grid, block)),
            forall|j: int|
                0 <= j < dbuf@.len() ==> dbuf@[j] == if j < 4 * t {
                    target[j]
                } else {
                    d0[j]
                },
        decreases m - t,
    {
        proof {
            lemma_multiply_divide_lt(t as int, bd as int, grid.x as int);
            lemma_fundamental_div_mod(t as int, bd as int);
        }
        let bi: u32 = (t / (bd as u64)) as u32;
        let ti: u32 = (t % (bd as u64)) as u32;
        memcpy_kernel_thread(bi, bd, ti, &src0, &mut dbuf, n);
        proof {
            assert(linear_index(bd, bi, ti) == t);
            assert forall|j: int| 0 <= j < dbuf@.len() implies dbuf@[j] == (if j < 4 * (t + 1) {
                target[j]
            } else {
                d0[j]
            }) by {
                if 4 * t <= j < 4 * t + 4 {
                    lemma_fundamental_div_mod_converse(j, 4, t as int, j - 4 * (t as int));
                }
            }
        }
        t = t + 1;
    }
    proof {
        assert(dbuf@ =~= target);
        lemma_live_bytes_update(ctx.allocations@, pd.slot as int, Some(dbuf));
    }
    ctx.allocations.set(pd.slot, Some(dbuf));
    Ok(())
}

/// Runs the rgba-to-gray kernel over the covered 2D grid, row by row;
/// threads outside the image domain leave no trace and are skipped.
fn run_rgba2gray(ctx: &mut Context, args: &Vec<Arg>, grid: Grid, block: Block) -> (r: Result<
    (),
    Error,
>)
    requires
        old(ctx).wf(),
        geometry_ok(old(ctx).props, grid, block),
    ensures
        final(ctx).wf(),
        final(ctx).props == old(ctx).props,
        final(ctx).device_index == old(ctx).device_index,
        rgba2gray_precheck(*old(ctx), args@) ==> r == Ok::<(), Error>(()) && rgba2gray_result(
            *old(ctx),
            *final(ctx),
            args@,
            grid,
            block,
        ),
        !rgba2gray_precheck(*old(ctx), args@) ==> r == Err::<(), Error>(Error::LaunchFailure)
            && *final(ctx) == *old(ctx),
{
    if args.len() != 4 {
        return Err(Error::LaunchFailure);
    }
    let (pr, pg, w, h) = match (args[0], args[1], args[2], args[3]) {
        (Arg::Ptr(r), Arg::Ptr(g), Arg::I32(w), Arg::I32(h)) => (r, g, w, h),
        _ => {
            return Err(Error::LaunchFailure);
        },
    };
    let rgba0 = match snapshot(ctx, pr) {
        Some(v) => v,
        None => {
            return Err(Error::LaunchFailure);
        },
    };
    let mut gbuf = match snapshot(ctx, pg) {
        Some(v) => v,
        None => {
            return Err(Error::LaunchFailure);
        },
    };
    if w <= 0 || h <= 0 {
        return Ok(());
    }
    let wu = w as u64;
    let hu = h as u64;
    proof {
        assert(4 * (w as int) * (h as int) == 4 * ((w as int) * (h as int)) && (w as int) * (
        h as int) <= 0x7fff_ffff * 0x7fff_ffff) by (nonlinear_arith)
            requires
                0 < w <= 0x7fff_ffff,
                0 < h <= 0x7fff_ffff,
        ;
    }
    if (rgba0.len() as u64) < 4 * (wu * hu) || (gbuf.len() as u64) < wu * hu {
        return Err(Error::LaunchFailure);
    }
    let ghost g0 = gbuf@;
    let bdx: u32 = block.x;
    let bdy: u32 = block.y;
    proof {
        assert((block.x as int) * (grid.x as int) <= 0xffff_ffff * 0xffff_ffff
            && (block.x as int) * (grid.x as int) == covered_x(grid, block) && (block.y as int) * (
        grid.y as int) <= 0xffff_ffff * 0xffff_ffff && (block.y as int) * (grid.y as int)
            == covered_y(grid, block)) by (nonlinear_arith)
            requires
                0 <= block.x <= 0xffff_ffffu64,
                0 <= grid.x <= 0xffff_ffffu64,
                0 <= block.y <= 0xffff_ffffu64,
                0 <= grid.y <= 0xffff_ffffu64,
        ;
    }
    let covx: u64 = (bdx as u64) * (grid.x as u64);
    let covy: u64 = (bdy as u64) * (grid.y as u64);
    let minx: u64 = if covx < wu {
        covx
    } else {
        wu
    };
    let miny: u64 = if covy < hu {
        covy
    } else {
        hu
    };
    let ghost target = gray_out(
        rgba0@,
        g0,
        w as int,
        h as int,
        covered_x(grid, block),
        covered_y(grid, block),
    );
    let mut ty: u64 = 0;
    while ty < miny
        invariant
            ty <= miny,
            minx == min_int(covered_x(grid, block), w as int),
            miny == min_int(covered_y(grid, block), h as int),
            minx <= w,
            miny <= h,
            0 < w,
            0 < h,
            bdx == block.x,
            bdy == block.y,
            bdx >= 1,
            bdy >= 1,
            covx == covered_x(grid, block),
            covy == covered_y(grid, block),
            4 * ((w as int) * (h as int)) <= rgba0@.len(),
            (w as int) * (h as int) <= g0.len(),
            gbuf@.len() == g0.len(),
            target == gray_out(
                rgba0@,
                g0,
                w as int,
                h as int,
                covered_x(grid, block),
                covered_y(grid, block),
            ),
            forall|j: int|
                0 <= j < gbuf@.len() ==> gbuf@[j] == if j % (w as int) < minx && j / (w as int)
                    < ty {
                    target[j]
                } else {
                    g0[j]
                },
        decreases miny - ty,
    {
        proof {
            lemma_multiply_divide_lt(ty as int, bdy as int, grid.y as int);
            lemma_fundamental_div_mod(ty as int, bdy as int);
        }
        let biy: u32 = (ty / (bdy as u64)) as u32;
        let tiy: u32 = (ty % (bdy as u64)) as u32;
        let mut tx: u64 = 0;
        while tx < minx
            invariant
                tx <= minx,
                ty < miny,
                minx == min_int(covered_x(grid, block), w as int),
                miny == min_int(covered_y(grid, block), h as int),
                minx <= w,
                miny <= h,
                0 < w,
                0 < h,
                bdx == block.x,
                bdy == block.y,
                bdx >= 1,
                bdy >= 1,
                covx == covered_x(grid, block),
                covy == covered_y(grid, block),
                biy as int == ty as int / bdy as int,
                tiy as int == ty as int % bdy as int,
                4 * ((w as int) * (h as int)) <= rgba0@.len(),
                (w as int) * (h as int) <= g0.len(),
                gbuf@.len() == g0.len(),
                target == gray_out(
                    rgba0@,
                    g0,
                    w as int,
                    h as int,
                    covered_x(grid, block),
                    covered_y(grid, block),
                ),
                forall|j: int|
                    0 <= j < gbuf@.len() ==> gbuf@[j] == if (j % (w as int) < minx && j / (
                    w as int) < ty) || (j / (w as int) == ty && j % (w as int) < tx) {
                        target[j]
                    } else {
                        g0[j]
                    },
            decreases minx - tx,
        {
            proof {
                lemma_multiply_divide_lt(tx as int, bdx as int, grid.x as int);
                lemma_fundamental_div_mod(tx as int, bdx as int);
                lemma_fundamental_div_mod(ty as int, bdy as int);
                assert(4 * (w as int) * (h as int) == 4 * ((w as int) * (h as int)))
                    by (nonlinear_arith);
            }
            let bix: u32 = (tx / (bdx as u64)) as u32;
            let tix: u32 = (tx % (bdx as u64)) as u32;
            let ghost jstar = (ty as int) * (w as int) + (tx as int);
            rgba2gray_kernel_thread(bix, bdx, tix, biy, bdy, tiy, &rgba0, &mut gbuf, w, h);
            proof {
                assert(linear_index(bdx, bix, tix) == tx);
                assert(linear_index(bdy, biy, tiy) == ty);
                lemma_fundamental_div_mod_converse(jstar, w as int, ty as int, tx as int);
                assert(target.len() == g0.len());
                assert(jstar < g0.len() && target[jstar] == pixel_luma(rgba0@, jstar)) by {
                    assert(jstar <= (w as int) * (h as int) - 1) by (nonlinear_arith)
                        requires
                            0 <= tx < w,
                            0 <= ty < h,
                            0 < w,
                            0 < h,
                            jstar == (ty as int) * (w as int) + (tx as int),
                    ;
                }
                assert forall|j: int| 0 <= j < gbuf@.len() implies gbuf@[j] == (if (j % (w as int)
                    < minx && j / (w as int) < ty) || (j / (w as int) == ty && j % (w as int) < tx
                    + 1) {
                    target[j]
                } else {
                    g0[j]
                }) by {
                    lemma_fundamental_div_mod(j, w as int);
                    if j != jstar && j / (w as int) == ty && j % (w as int) == tx {
                        assert((w as int) * (ty as int) == (ty as int) * (w as int))
                            by (nonlinear_arith);
                        assert(false);
                    }
                }
            }
            tx = tx + 1;
        }
        proof {
            assert forall|j: int| 0 <= j < gbuf@.len() implies gbuf@[j] == (if j % (w as int) < minx
                && j / (w as int) < ty + 1 {
                target[j]
            } else {
                g0[j]
            }) by {}
        }
        ty = ty + 1;
    }
    proof {
        assert forall|j: int| 0 <= j < gbuf@.len() implies gbuf@[j] == target[j] by {
            if j % (w as int) < minx && j / (w as int) < miny {
            } else {
                assert(target[j] == g0[j]);
            }
        }
        assert(gbuf@ =~= target);
        lemma_live_bytes_update(ctx.allocations@, pg.slot as int, Some(gbuf));
    }
    ctx.allocations.set(pg.slot, Some(gbuf));
    Ok(())
}

} // verus!
