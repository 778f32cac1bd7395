//! Modules and kernel entry points: the loadable kernel image format, its
//! parser, the builder the toolchain side uses to emit images, and entry
//! point resolution by exact name.
//!
//! An image is an opaque blob to its callers; its layout here is a 9-byte
//! header (4 magic bytes, a format version, a little-endian 32-bit entry
//! count) followed by one record per exported entry point: a kind byte, a
//! name length byte, and the name bytes. Anything else is malformed.

use vstd::prelude::*;
use crate::bytes::{copy_bytes, bytes_eq, u32_from_le_spec, u32_le_byte, u32_le_byte_at,
    lemma_u32_le_round_trip};
use crate::context::Context;
use crate::error::Error;

verus! {

/// The fixed device-side behavior a loaded entry point resolves to: each
/// kernel this system supports honors the one device-side calling contract.
#[derive(Clone, Copy, Debug, PartialEq, Eq, Structural)]
pub enum KernelKind {
    /// `c[i] = a[i] + b[i]` for every `i < n`.
    ElementwiseAdd,
    /// `dst[i] = src[i]` for every `i < n`.
    ElementwiseCopy,
    /// `gray[y*width+x] = luma(rgba[y*width+x])` for `x < width`, `y < height`.
    RgbaToGray,
}

/// One exported kernel entry point of an image: its exact name and the
/// device-side behavior it resolves to.
pub struct Export {
    pub name: Vec<u8>,
    pub kind: KernelKind,
}

/// First magic byte of a kernel image.
pub const IMAGE_MAGIC_0: u8 = 0x47;

/// Second magic byte of a kernel image.
pub const IMAGE_MAGIC_1: u8 = 0x50;

/// Third magic byte of a kernel image.
pub const IMAGE_MAGIC_2: u8 = 0x4b;

/// Fourth magic byte of a kernel image.
pub const IMAGE_MAGIC_3: u8 = 0x49;

/// The one image format version this loader accepts.
pub const IMAGE_VERSION: u8 = 1;

/// The kernel kind a record's kind byte denotes, if any.
pub open spec fn kind_of_byte(b: u8) -> Option<KernelKind> {
    if b == 1 {
        Some(KernelKind::ElementwiseAdd)
    } else if b == 2 {
        Some(KernelKind::ElementwiseCopy)
    } else if b == 3 {
        Some(KernelKind::RgbaToGray)
    } else {
        None
    }
}

/// The kind byte that denotes a kernel kind.
pub open spec fn byte_of_kind(k: KernelKind) -> u8 {
    match k {
        KernelKind::ElementwiseAdd => 1,
        KernelKind::ElementwiseCopy => 2,
        KernelKind::RgbaToGray => 3,
    }
}

/// Emits the kind byte that denotes a kernel kind.
pub fn kind_byte(k: KernelKind) -> (b: u8)
    ensures
        b == byte_of_kind(k),
        kind_of_byte(b) == Some(k),
{
    match k {
        KernelKind::ElementwiseAdd => 1,
        KernelKind::ElementwiseCopy => 2,
        KernelKind::RgbaToGray => 3,
    }
}

/// Parses exactly `count` entry records out of `bytes`, rejecting trailing
/// bytes: `None` on any malformation, otherwise the `(name, kind)` pairs in
/// image order.
pub open spec fn parse_entries(bytes: Seq<u8>, count: nat) -> Option<Seq<(Seq<u8>, KernelKind)>>
    decreases count,
{
    if count == 0 {
        if bytes.len() == 0 {
            Some(Seq::empty())
        } else {
            None
        }
    } else if bytes.len() < 2 {
        None
    } else {
        let nlen = bytes[1] as int;
        if kind_of_byte(bytes[0]) is None || nlen < 1 || bytes.len() < 2 + nlen {
            None
        } else {
            match parse_entries(bytes.skip(2 + nlen), (count - 1) as nat) {
                Some(rest) => Some(
                    seq![(bytes.subrange(2, 2 + nlen), kind_of_byte(bytes[0])->Some_0)] + rest,
                ),
                None => None,
            }
        }
    }
}

/// Parses a whole kernel image: header then entry records. `None` means the
/// image is malformed (bad magic, wrong version, truncated or oversized
/// record region); `Some` gives the exported `(name, kind)` pairs.
pub open spec fn parse_image(bytes: Seq<u8>) -> Option<Seq<(Seq<u8>, KernelKind)>> {
    if bytes.len() < 9 {
        None
    } else if bytes[0] != IMAGE_MAGIC_0 || bytes[1] != IMAGE_MAGIC_1 || bytes[2] != IMAGE_MAGIC_2
        || bytes[3] != IMAGE_MAGIC_3 || bytes[4] != IMAGE_VERSION {
        None
    } else {
        parse_entries(
            bytes.skip(9),
            u32_from_le_spec(bytes[5], bytes[6], bytes[7], bytes[8]) as nat,
        )
    }
}

/// The `(name, kind)` pairs a sequence of exports denotes.
pub open spec fn exports_view(exports: Seq<Export>) -> Seq<(Seq<u8>, KernelKind)> {
    Seq::new(exports.len(), |i: int| (exports[i].name@, exports[i].kind))
}

/// A compiled kernel image loaded into a context: owns the exported symbol
/// table and resolves entry points by name. Its lifetime is bounded by the
/// owning context.
pub struct Module {
    pub exports: Vec<Export>,
}

impl Module {
    /// The module's exported `(name, kind)` pairs, in image order.
    pub open spec fn view_exports(self) -> Seq<(Seq<u8>, KernelKind)> {
        exports_view(self.exports@)
    }
}

/// A resolved, callable kernel entry point. Stateless beyond the entry point
/// identity; valid only as long as its module's context is.
pub struct Function {
    pub name: Vec<u8>,
    pub kind: KernelKind,
}

/// Exact, case-sensitive lookup of `name` among exported entries: the kind of
/// the first entry whose name matches, if any.
pub open spec fn find_export(entries: Seq<(Seq<u8>, KernelKind)>, name: Seq<u8>) -> Option<
    KernelKind,
>
    decreases entries.len(),
{
    if entries.len() == 0 {
        None
    } else if entries[0].0 == name {
        Some(entries[0].1)
    } else {
        find_export(entries.skip(1), name)
    }
}

impl Module {
    /// Resolves the entry point exported under exactly `name`. Fails with
    /// `NotFound` if and only if no exported entry bears that name.
    pub fn function(&self, name: &[u8]) -> (r: Result<Function, Error>)
        ensures
            match find_export(self.view_exports(), name@) {
                Some(k) => r matches Ok(f) && f.kind == k && f.name@ == name@,
                None => r == Err::<Function, Error>(Error::NotFound),
            },
    {
        let ghost whole = self.view_exports();
        proof {
            assert(whole.skip(0) =~= whole);
        }
        let mut i: usize = 0;
        while i < self.exports.len()
            invariant
                i <= self.exports@.len(),
                whole == exports_view(self.exports@),
                find_export(whole, name@) == find_export(whole.skip(i as int), name@),
            decreases self.exports@.len() - i,
        {
            if bytes_eq(self.exports[i].name.as_slice(), name) {
                proof {
                    assert(whole.skip(i as int)[0] == whole[i as int]);
                }
                return Ok(Function { name: copy_bytes(name), kind: self.exports[i].kind });
            }
            proof {
                assert(whole.skip(i as int)[0] == whole[i as int]);
                assert(whole.skip(i as int).skip(1) =~= whole.skip(i as int + 1));
            }
            i = i + 1;
        }
        proof {
            assert(whole.skip(i as int).len() == 0);
        }
        Err(Error::NotFound)
    }
}

impl Context {
    /// Parses and loads a compiled kernel image into this context. Fails with
    /// `InvalidImage` — and never any other error — if and only if the blob
    /// is malformed; a well-formed image yields a module exporting exactly
    /// the image's entries.
    pub fn load_module(&self, image: &[u8]) -> (r: Result<Module, Error>)
        ensures
            match parse_image(image@) {
                Some(entries) => r matches Ok(m) && m.view_exports() == entries,
                None => r == Err::<Module, Error>(Error::InvalidImage),
            },
    {
        if image.len() < 9 {
            return Err(Error::InvalidImage);
        }
        if image[0] != IMAGE_MAGIC_0 || image[1] != IMAGE_MAGIC_1 || image[2] != IMAGE_MAGIC_2
            || image[3] != IMAGE_MAGIC_3 || image[4] != IMAGE_VERSION {
            return Err(Error::InvalidImage);
        }
        let count = crate::bytes::u32_from_le_bytes(image[5], image[6], image[7], image[8]);
        match parse_entries_exec(image, 9, count) {
            Some(exports) => {
                proof {
                    assert(image@.skip(9) =~= image@.skip(9));
                }
                Ok(Module { exports })
            },
            None => Err(Error::InvalidImage),
        }
    }
}

/// Parses `count` entry records starting at `offset`, rejecting trailing
/// bytes, exactly as `parse_entries` describes on the suffix.
fn parse_entries_exec(bytes: &[u8], offset: usize, count: u32) -> (r: Option<Vec<Export>>)
    requires
        offset <= bytes@.len(),
    ensures
        match parse_entries(bytes@.skip(offset as int), count as nat) {
            Some(entries) => r matches Some(v) && exports_view(v@) == entries,
            None => r is None,
        },
    decreases count,
{
    let ghost suffix = bytes@.skip(offset as int);
    if count == 0 {
        if offset == bytes.len() {
            let out: Vec<Export> = Vec::new();
            proof {
                assert(exports_view(out@) =~= Seq::<(Seq<u8>, KernelKind)>::empty());
            }
            Some(out)
        } else {
            None
        }
    } else {
        if bytes.len() - offset < 2 {
            return None;
        }
        let kind_b = bytes[offset];
        let nlen = bytes[offset + 1] as usize;
        proof {
            assert(suffix[0] == bytes@[offset as int]);
            assert(suffix[1] == bytes@[offset as int + 1]);
        }
        let kind = if kind_b == 1 {
            KernelKind::ElementwiseAdd
        } else if kind_b == 2 {
            KernelKind::ElementwiseCopy
        } else if kind_b == 3 {
            KernelKind::RgbaToGray
        } else {
            return None;
        };
        if nlen < 1 || bytes.len() - offset < 2 + nlen {
            return None;
        }
        let blen: usize = bytes.len();
        let mut name: Vec<u8> = Vec::new();
        let mut i: usize = 0;
        while i < nlen
            invariant
                i <= nlen,
                offset + 2 + nlen <= blen,
                blen == bytes@.len(),
                name@ =~= bytes@.subrange(offset as int + 2, offset as int + 2 + i),
            decreases nlen - i,
        {
            name.push(bytes[offset + 2 + i]);
            i = i + 1;
            proof {
                assert(name@ =~= bytes@.subrange(offset as int + 2, offset as int + 2 + i));
            }
        }
        proof {
            assert(name@ =~= suffix.subrange(2, 2 + nlen as int));
            assert(suffix.skip(2 + nlen as int) =~= bytes@.skip(offset as int + 2 + nlen as int));
        }
        match parse_entries_exec(bytes, offset + 2 + nlen, count - 1) {
            Some(rest) => {
                let mut out: Vec<Export> = Vec::new();
                let ghost name_view = name@;
                out.push(Export { name, kind });
                let mut rest = rest;
                out.append(&mut rest);
                proof {
                    let parsed = parse_entries(suffix, count as nat)->Some_0;
                    assert(exports_view(out@) =~= parsed);
                }
                Some(out)
            },
            None => None,
        }
    }
}

/// Whether an export can be written into an image record: its name must fit
/// the record's one-byte length field and must not be empty.
pub open spec fn export_encodable(e: Export) -> bool {
    1 <= e.name@.len() <= 255
}

/// Emits the entry records for `exports[idx..]`. `None` if and only if some
/// export in that range is not encodable; otherwise bytes that parse back,
/// under `parse_entries`, to exactly those exports.
fn build_entries(exports: &Vec<Export>, idx: usize) -> (r: Option<Vec<u8>>)
    requires
        idx <= exports@.len(),
    ensures
        (forall|i: int| idx <= i < exports@.len() ==> export_encodable(exports@[i])) <==> (
        r is Some),
        r matches Some(b) ==> parse_entries(b@, (exports@.len() - idx) as nat) == Some(
            exports_view(exports@).skip(idx as int),
        ),
    decreases exports@.len() - idx,
{
    if idx == exports.len() {
        let out: Vec<u8> = Vec::new();
        proof {
            assert(exports_view(exports@).skip(idx as int) =~= Seq::<(
                Seq<u8>,
                KernelKind,
            )>::empty());
        }
        Some(out)
    } else {
        let e = &exports[idx];
        let nlen = e.name.len();
        if nlen < 1 || nlen > 255 {
            return None;
        }
        match build_entries(exports, idx + 1) {
            None => None,
            Some(rest) => {
                let mut out: Vec<u8> = Vec::new();
                out.push(kind_byte(e.kind));
                out.push(nlen as u8);
                let mut i: usize = 0;
                while i < nlen
                    invariant
                        i <= nlen,
                        nlen == e.name@.len(),
                        out@.len() == 2 + i,
                        out@[0] == byte_of_kind(e.kind),
                        out@[1] == nlen as u8,
                        out@.subrange(2, out@.len() as int) =~= e.name@.take(i as int),
                    decreases nlen - i,
                {
                    out.push(e.name[i]);
                    i = i + 1;
                    proof {
                        assert(out@.subrange(2, out@.len() as int) =~= e.name@.take(i as int));
                    }
                }
                let ghost head = out@;
                let mut rest = rest;
                let ghost rest_view = rest@;
                out.append(&mut rest);
                proof {
                    let whole = out@;
                    let n = exports@.len() - idx;
                    assert(whole =~= head + rest_view);
                    assert(whole[0] == byte_of_kind(e.kind));
                    assert(kind_of_byte(whole[0]) == Some(e.kind));
                    assert(whole[1] == nlen as u8);
                    assert(head.subrange(2, head.len() as int) =~= e.name@);
                    assert(whole.subrange(2, 2 + nlen as int) =~= head.subrange(
                        2,
                        head.len() as int,
                    ));
                    assert(whole.subrange(2, 2 + nlen as int) =~= e.name@);
                    assert(whole.skip(2 + nlen as int) =~= rest_view);
                    assert(parse_entries(whole, n as nat) == Some(
                        seq![(e.name@, e.kind)] + exports_view(exports@).skip(idx as int + 1),
                    ));
                    assert(seq![(e.name@, e.kind)] + exports_view(exports@).skip(idx as int + 1)
                        =~= exports_view(exports@).skip(idx as int));
                }
                Some(out)
            },
        }
    }
}

/// Emits a loadable kernel image exporting exactly the given entries, in
/// order. Fails with `InvalidValue` if and only if some name is empty or
/// longer than a record can hold, or there are more entries than the header's
/// count field can hold; otherwise `load_module` on the result succeeds and
/// exposes exactly these exports.
pub fn build_image(exports: &Vec<Export>) -> (r: Result<Vec<u8>, Error>)
    ensures
        ((forall|i: int| 0 <= i < exports@.len() ==> export_encodable(exports@[i]))
            && exports@.len() <= u32::MAX) <==> (r is Ok),
        r matches Ok(img) ==> parse_image(img@) == Some(exports_view(exports@)),
{
    if exports.len() > u32::MAX as usize {
        return Err(Error::InvalidValue);
    }
    let count: u32 = exports.len() as u32;
    match build_entries(exports, 0) {
        None => Err(Error::InvalidValue),
        Some(records) => {
            let mut img: Vec<u8> = Vec::new();
            img.push(IMAGE_MAGIC_0);
            img.push(IMAGE_MAGIC_1);
            img.push(IMAGE_MAGIC_2);
            img.push(IMAGE_MAGIC_3);
            img.push(IMAGE_VERSION);
            img.push(crate::bytes::u32_le_byte_at(count, 0));
            img.push(crate::bytes::u32_le_byte_at(count, 1));
            img.push(crate::bytes::u32_le_byte_at(count, 2));
            img.push(crate::bytes::u32_le_byte_at(count, 3));
            let ghost header = img@;
            let mut records = records;
            let ghost records_view = records@;
            img.append(&mut records);
            proof {
                lemma_u32_le_round_trip(count);
                assert(img@ =~= header + records_view);
                assert(img@.skip(9) =~= records_view);
                assert(u32_from_le_spec(img@[5], img@[6], img@[7], img@[8]) == count);
                assert(exports_view(exports@).skip(0) =~= exports_view(exports@));
            }
            Ok(img)
        },
    }
}

} // verus!
