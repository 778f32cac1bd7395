//! Kernel argument marshalling: the tagged type-erased argument values a
//! launch receives, and their packing into the flat byte image the native
//! launch ABI takes — declaration order preserved, each value at its exact
//! byte width (8 bytes for a device pointer, 4 for the 32-bit scalars).

use vstd::prelude::*;
use crate::bytes::{u32_le_byte, u32_le_byte_at, u64_le_byte, u64_le_byte_at};
use crate::context::DevicePtr;

verus! {

/// One type-erased kernel argument: a device pointer, a 32-bit signed or
/// unsigned integer, or a 32-bit float carried by its bit pattern.
#[derive(Clone, Copy, Debug, PartialEq, Eq, Structural)]
pub enum Arg {
    /// A device pointer, 8 bytes wide in the packed image.
    Ptr(DevicePtr),
    /// A 32-bit signed integer, 4 bytes wide.
    I32(i32),
    /// A 32-bit unsigned integer, 4 bytes wide.
    U32(u32),
    /// A 32-bit float carried as its bit pattern, 4 bytes wide.
    F32Bits(u32),
}

/// The two's-complement 32-bit pattern of a signed value.
pub open spec fn i32_bits(v: i32) -> u32 {
    if v >= 0 {
        v as u32
    } else {
        (v + 0x1_0000_0000) as u32
    }
}

/// The bytes one argument contributes to the packed image, little-endian, at
/// its exact width.
pub open spec fn arg_bytes(a: Arg) -> Seq<u8> {
    match a {
        Arg::Ptr(p) => Seq::new(8, |k: int| u64_le_byte(p.slot as u64, k)),
        Arg::I32(v) => Seq::new(4, |k: int| u32_le_byte(i32_bits(v), k)),
        Arg::U32(v) => Seq::new(4, |k: int| u32_le_byte(v, k)),
        Arg::F32Bits(v) => Seq::new(4, |k: int| u32_le_byte(v, k)),
    }
}

/// The packed image of an argument list: each argument's bytes in declaration
/// order, nothing between them.
pub open spec fn packed_args(args: Seq<Arg>) -> Seq<u8>
    decreases args.len(),
{
    if args.len() == 0 {
        Seq::empty()
    } else {
        arg_bytes(args[0]) + packed_args(args.skip(1))
    }
}

/// Appending one argument appends exactly its bytes to the packed image.
pub proof fn lemma_packed_args_push(args: Seq<Arg>, a: Arg)
    ensures
        packed_args(args.push(a)) == packed_args(args) + arg_bytes(a),
    decreases args.len(),
{
    if args.len() == 0 {
        assert(args.push(a)[0] == a);
        assert(args.push(a).skip(1) =~= Seq::<Arg>::empty());
        assert(packed_args(args.push(a)) == arg_bytes(a) + packed_args(Seq::<Arg>::empty()));
        assert(packed_args(args.push(a)) =~= packed_args(args) + arg_bytes(a));
    } else {
        assert(args.push(a)[0] == args[0]);
        assert(args.push(a).skip(1) =~= args.skip(1).push(a));
        lemma_packed_args_push(args.skip(1), a);
        assert(packed_args(args.push(a)) == arg_bytes(args[0]) + (packed_args(args.skip(1))
            + arg_bytes(a)));
        assert(packed_args(args.push(a)) =~= packed_args(args) + arg_bytes(a));
    }
}

/// Packs an argument list into the flat byte image handed to the native
/// launch call: order preserved, each value at its exact byte width.
pub fn pack_args(args: &Vec<Arg>) -> (r: Vec<u8>)
    ensures
        r@ == packed_args(args@),
{
    let mut out: Vec<u8> = Vec::new();
    let mut i: usize = 0;
    while i < args.len()
        invariant
            i <= args@.len(),
            out@ == packed_args(args@.take(i as int)),
        decreases args@.len() - i,
    {
        let ghost prefix = args@.take(i as int);
        let ghost prior = out@;
        match args[i] {
            Arg::Ptr(p) => {
                let s = p.slot as u64;
                out.push(u64_le_byte_at(s, 0));
                out.push(u64_le_byte_at(s, 1));
                out.push(u64_le_byte_at(s, 2));
                out.push(u64_le_byte_at(s, 3));
                out.push(u64_le_byte_at(s, 4));
                out.push(u64_le_byte_at(s, 5));
                out.push(u64_le_byte_at(s, 6));
                out.push(u64_le_byte_at(s, 7));
            },
            Arg::I32(v) => {
                let bits: u32 = if v >= 0 {
                    v as u32
                } else {
                    ((v as i64) + 0x1_0000_0000i64) as u32
                };
                proof {
                    assert(bits == i32_bits(v));
                }
                out.push(u32_le_byte_at(bits, 0));
                out.push(u32_le_byte_at(bits, 1));
                out.push(u32_le_byte_at(bits, 2));
                out.push(u32_le_byte_at(bits, 3));
            },
            Arg::U32(v) => {
                out.push(u32_le_byte_at(v, 0));
                out.push(u32_le_byte_at(v, 1));
                out.push(u32_le_byte_at(v, 2));
                out.push(u32_le_byte_at(v, 3));
            },
            Arg::F32Bits(v) => {
                out.push(u32_le_byte_at(v, 0));
                out.push(u32_le_byte_at(v, 1));
                out.push(u32_le_byte_at(v, 2));
                out.push(u32_le_byte_at(v, 3));
            },
        }
        proof {
            assert(out@ =~= prior + arg_bytes(args@[i as int]));
            lemma_packed_args_push(prefix, args@[i as int]);
            assert(prefix.push(args@[i as int]) =~= args@.take(i as int + 1));
        }
        i = i + 1;
    }
    proof {
        assert(args@.take(args@.len() as int) =~= args@);
    }
    out
}

} // verus!
