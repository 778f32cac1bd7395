//! The execution context: the scope bound to one device that owns every
//! module load and device allocation performed under it, and the memory
//! manager itself — raw allocation, host/device transfers, deallocation.
//!
//! Device memory is modeled explicitly: a context holds one slot per
//! allocation, a device pointer is an opaque handle naming a slot, and a
//! freed slot stays behind as invalid so that stale handles are detected and
//! reported rather than dereferenced.

use vstd::prelude::*;
use vstd::pervasive::VecAdditionalExecFns;
use crate::device::DeviceProps;
use crate::error::Error;

verus! {

/// An opaque handle to device memory. Never dereferenced by host code; only
/// passed by value as a kernel argument or as a copy endpoint.
#[derive(Clone, Copy, Debug, PartialEq, Eq, Structural)]
pub struct DevicePtr {
    /// The allocation slot this handle names.
    pub slot: usize,
}

impl DevicePtr {
    /// The null device pointer: a handle that no allocation ever receives.
    pub fn null() -> (p: DevicePtr)
        ensures
            p.slot == usize::MAX,
    {
        DevicePtr { slot: usize::MAX }
    }
}

/// The size of one allocation slot: the byte length of a live allocation,
/// zero for a freed one.
pub open spec fn alloc_size(a: Option<Vec<u8>>) -> int {
    match a {
        Some(v) => v@.len() as int,
        None => 0,
    }
}

/// The number of device bytes held live across a sequence of allocation
/// slots.
pub open spec fn live_bytes(allocs: Seq<Option<Vec<u8>>>) -> int
    decreases allocs.len(),
{
    if allocs.len() == 0 {
        0
    } else {
        live_bytes(allocs.drop_last()) + alloc_size(allocs.last())
    }
}

/// Live bytes never go negative.
pub proof fn lemma_live_bytes_nonneg(allocs: Seq<Option<Vec<u8>>>)
    ensures
        live_bytes(allocs) >= 0,
    decreases allocs.len(),
{
    if allocs.len() > 0 {
        lemma_live_bytes_nonneg(allocs.drop_last());
    }
}

/// Appending a slot adds its size to the live bytes.
pub proof fn lemma_live_bytes_push(allocs: Seq<Option<Vec<u8>>>, a: Option<Vec<u8>>)
    ensures
        live_bytes(allocs.push(a)) == live_bytes(allocs) + alloc_size(a),
{
    assert(allocs.push(a).drop_last() =~= allocs);
    assert(allocs.push(a).last() == a);
}

/// Replacing the slot at `i` changes the live bytes by the difference of the
/// two slots' sizes.
pub proof fn lemma_live_bytes_update(allocs: Seq<Option<Vec<u8>>>, i: int, a: Option<Vec<u8>>)
    requires
        0 <= i < allocs.len(),
    ensures
        live_bytes(allocs.update(i, a)) == live_bytes(allocs) - alloc_size(allocs[i]) + alloc_size(
            a,
        ),
    decreases allocs.len(),
{
    let updated = allocs.update(i, a);
    if i == allocs.len() - 1 {
        assert(updated.drop_last() =~= allocs.drop_last());
        assert(updated.last() == a);
    } else {
        assert(updated.drop_last() =~= allocs.drop_last().update(i, a));
        assert(updated.last() == allocs.last());
        lemma_live_bytes_update(allocs.drop_last(), i, a);
    }
}

/// A bulk transfer of `count` bytes: the first `count` bytes of `src` replace
/// the first `count` bytes of `dst`; the rest of `dst` is unchanged.
pub open spec fn transfer(dst: Seq<u8>, src: Seq<u8>, count: int) -> Seq<u8>
    recommends
        0 <= count <= src.len(),
        count <= dst.len(),
{
    src.take(count) + dst.skip(count)
}

/// An execution scope bound to one device. Owns the device allocations (and,
/// through `load_module`, the module loads) performed under it; dropping the
/// context invalidates them all at once.
pub struct Context {
    /// The index of the device this context is bound to.
    pub device_index: usize,
    /// The properties of the device this context is bound to.
    pub props: DeviceProps,
    /// One slot per allocation ever made; a freed slot turns `None`.
    pub allocations: Vec<Option<Vec<u8>>>,
    /// The number of device bytes currently allocated.
    pub used: usize,
}

impl Context {
    /// Well-formedness: the allocation counter agrees with the slots and
    /// stays within the device's total memory.
    pub open spec fn wf(self) -> bool {
        &&& self.used == live_bytes(self.allocations@)
        &&& self.used <= self.props.total_memory
    }

    /// Whether `p` names a live (allocated, not yet freed) slot.
    pub open spec fn is_live(self, p: DevicePtr) -> bool {
        p.slot < self.allocations@.len() && self.allocations@[p.slot as int] is Some
    }

    /// The bytes held by the live allocation that `p` names.
    pub open spec fn data_at(self, p: DevicePtr) -> Seq<u8>
        recommends
            self.is_live(p),
    {
        self.allocations@[p.slot as int]->Some_0@
    }

    /// A fresh context for a device: nothing loaded, nothing allocated.
    pub fn empty_for(device_index: usize, props: DeviceProps) -> (c: Context)
        ensures
            c.device_index == device_index,
            c.props == props,
            c.allocations@.len() == 0,
            c.used == 0,
            c.wf(),
    {
        Context { device_index, props, allocations: Vec::new(), used: 0 }
    }

    /// Requests a raw device buffer of `bytes` bytes, zero-initialized.
    /// Fails with `InvalidValue` on a zero-sized request and with
    /// `OutOfMemory` when the device's total memory cannot hold the request;
    /// otherwise returns a handle to a fresh slot.
    pub fn allocate(&mut self, bytes: usize) -> (r: Result<DevicePtr, Error>)
        requires
            old(self).wf(),
        ensures
            final(self).wf(),
            final(self).props == old(self).props,
            final(self).device_index == old(self).device_index,
            bytes == 0 ==> r == Err::<DevicePtr, Error>(Error::InvalidValue) && *final(self)
                == *old(self),
            bytes > 0 && old(self).used + bytes > old(self).props.total_memory ==> r
                == Err::<DevicePtr, Error>(Error::OutOfMemory) && *final(self) == *old(self),
            bytes > 0 && old(self).used + bytes <= old(self).props.total_memory ==> {
                &&& r matches Ok(p)
                &&& p.slot == old(self).allocations@.len()
                &&& final(self).allocations@.len() == old(self).allocations@.len() + 1
                &&& forall|s: int|
                    0 <= s < old(self).allocations@.len() ==> final(self).allocations@[s] == old(
                        self,
                    ).allocations@[s]
                &&& final(self).is_live(p)
                &&& final(self).data_at(p) == Seq::new(bytes as nat, |i: int| 0u8)
                &&& final(self).used == old(self).used + bytes
            },
    {
        if bytes == 0 {
            return Err(Error::InvalidValue);
        }
        if bytes > self.props.total_memory - self.used {
            return Err(Error::OutOfMemory);
        }
        let mut buf: Vec<u8> = Vec::new();
        while buf.len() < bytes
            invariant
                buf@ =~= Seq::new(buf@.len(), |i: int| 0u8),
                buf@.len() <= bytes,
            decreases bytes - buf@.len(),
        {
            buf.push(0u8);
            proof {
                assert(buf@ =~= Seq::new(buf@.len(), |i: int| 0u8));
            }
        }
        let p = DevicePtr { slot: self.allocations.len() };
        proof {
            lemma_live_bytes_push(self.allocations@, Some(buf));
        }
        self.allocations.push(Some(buf));
        self.used = self.used + bytes;
        Ok(p)
    }

    /// Releases the allocation that `ptr` names. Fails with `InvalidValue` —
    /// and changes nothing — if and only if `ptr` is null, stale, or was
    /// already freed; a double free is therefore reported, never performed.
    pub fn deallocate(&mut self, ptr: DevicePtr) -> (r: Result<(), Error>)
        requires
            old(self).wf(),
        ensures
            final(self).wf(),
            final(self).props == old(self).props,
            final(self).device_index == old(self).device_index,
            !old(self).is_live(ptr) ==> r == Err::<(), Error>(Error::InvalidValue) && *final(self)
                == *old(self),
            old(self).is_live(ptr) ==> {
                &&& r == Ok::<(), Error>(())
                &&& final(self).allocations@ == old(self).allocations@.update(
                    ptr.slot as int,
                    None::<Vec<u8>>,
                )
                &&& final(self).used == old(self).used - old(self).data_at(ptr).len()
            },
    {
        if ptr.slot >= self.allocations.len() {
            return Err(Error::InvalidValue);
        }
        let freed: usize = match &self.allocations[ptr.slot] {
            Some(v) => v.len(),
            None => {
                return Err(Error::InvalidValue);
            },
        };
        proof {
            lemma_live_bytes_update(self.allocations@, ptr.slot as int, None::<Vec<u8>>);
            lemma_live_bytes_nonneg(self.allocations@.update(ptr.slot as int, None::<Vec<u8>>));
        }
        self.allocations.set(ptr.slot, None);
        self.used = self.used - freed;
        Ok(())
    }

    /// Synchronous bulk transfer, host to device: the first `count` bytes of
    /// `src` replace the first `count` bytes of the allocation `dst` names.
    /// Fails with `InvalidValue` — and changes nothing — when `dst` is not a
    /// live allocation, and with `DriverError` when either buffer holds fewer
    /// than `count` bytes.
    pub fn copy_to_device(&mut self, src: &[u8], dst: DevicePtr, count: usize) -> (r: Result<
        (),
        Error,
    >)
        requires
            old(self).wf(),
        ensures
            final(self).wf(),
            final(self).props == old(self).props,
            final(self).device_index == old(self).device_index,
            !old(self).is_live(dst) ==> r == Err::<(), Error>(Error::InvalidValue) && *final(self)
                == *old(self),
            old(self).is_live(dst) && (count > src@.len() || count > old(self).data_at(dst).len())
                ==> r == Err::<(), Error>(Error::DriverError) && *final(self) == *old(self),
            old(self).is_live(dst) && count <= src@.len() && count <= old(self).data_at(dst).len()
                ==> {
                &&& r == Ok::<(), Error>(())
                &&& final(self).allocations@.len() == old(self).allocations@.len()
                &&& forall|s: int|
                    0 <= s < old(self).allocations@.len() && s != dst.slot ==> final(self).allocations@[s] == old(self).allocations@[s]
                &&& final(self).is_live(dst)
                &&& final(self).data_at(dst) == transfer(
                    old(self).data_at(dst),
                    src@,
                    count as int,
                )
                &&& final(self).used == old(self).used
            },
    {
        if dst.slot >= self.allocations.len() {
            return Err(Error::InvalidValue);
        }
        let mut fresh: Vec<u8> = Vec::new();
        match &self.allocations[dst.slot] {
            None => {
                return Err(Error::InvalidValue);
            },
            Some(v) => {
                if count > src.len() || count > v.len() {
                    return Err(Error::DriverError);
                }
                let mut i: usize = 0;
                while i < count
                    invariant
                        i <= count,
                        count <= src@.len(),
                        fresh@ =~= src@.take(i as int),
                    decreases count - i,
                {
                    fresh.push(src[i]);
                    i = i + 1;
                    proof {
                        assert(fresh@ =~= src@.take(i as int));
                    }
                }
                while i < v.len()
                    invariant
                        count <= i <= v@.len(),
                        count <= src@.len(),
                        fresh@ =~= src@.take(count as int) + v@.subrange(count as int, i as int),
                    decreases v@.len() - i,
                {
                    fresh.push(v[i]);
                    i = i + 1;
                    proof {
                        assert(fresh@ =~= src@.take(count as int) + v@.subrange(
                            count as int,
                            i as int,
                        ));
                    }
                }
                proof {
                    assert(fresh@ =~= transfer(v@, src@, count as int));
                }
            },
        }
        proof {
            lemma_live_bytes_update(
                self.allocations@,
                dst.slot as int,
                Some(fresh),
            );
        }
        self.allocations.set(dst.slot, Some(fresh));
        Ok(())
    }

    /// Synchronous bulk transfer, device to host: the first `count` bytes of
    /// the allocation `src` names replace the first `count` bytes of `dst`.
    /// Ordered after any earlier launch on this context: the bytes read are
    /// the bytes those kernels left behind. Fails with `InvalidValue` when
    /// `src` is not a live allocation, and with `DriverError` when either
    /// buffer holds fewer than `count` bytes; on failure `dst` is unchanged.
    pub fn copy_to_host(&self, src: DevicePtr, dst: &mut Vec<u8>, count: usize) -> (r: Result<
        (),
        Error,
    >)
        ensures
            !self.is_live(src) ==> r == Err::<(), Error>(Error::InvalidValue) && final(dst)@
                == old(dst)@,
            self.is_live(src) && (count > self.data_at(src).len() || count > old(dst)@.len()) ==> r
                == Err::<(), Error>(Error::DriverError) && final(dst)@ == old(dst)@,
            self.is_live(src) && count <= self.data_at(src).len() && count <= old(dst)@.len()
                ==> {
                &&& r == Ok::<(), Error>(())
                &&& final(dst)@ == transfer(old(dst)@, self.data_at(src), count as int)
            },
    {
        if src.slot >= self.allocations.len() {
            return Err(Error::InvalidValue);
        }
        match &self.allocations[src.slot] {
            None => {
                return Err(Error::InvalidValue);
            },
            Some(v) => {
                if count > v.len() || count > dst.len() {
                    return Err(Error::DriverError);
                }
                let mut i: usize = 0;
                while i < count
                    invariant
                        i <= count,
                        count <= v@.len(),
                        count <= dst@.len(),
                        dst@.len() == old(dst)@.len(),
                        forall|j: int|
                            0 <= j < dst@.len() ==> dst@[j] == if j < i {
                                v@[j]
                            } else {
                                old(dst)@[j]
                            },
                    decreases count - i,
                {
                    dst.set(i, v[i]);
                    i = i + 1;
                }
                proof {
                    assert(dst@ =~= transfer(old(dst)@, v@, count as int));
                }
                Ok(())
            },
        }
    }

    /// Synchronous bulk transfer, device to device: the first `count` bytes
    /// of the allocation `src` names replace the first `count` bytes of the
    /// allocation `dst` names. Fails with `InvalidValue` — and changes
    /// nothing — when either handle is not a live allocation, and with
    /// `DriverError` when either allocation holds fewer than `count` bytes.
    pub fn copy_device_to_device(&mut self, src: DevicePtr, dst: DevicePtr, count: usize) -> (r:
        Result<(), Error>)
        requires
            old(self).wf(),
        ensures
            final(self).wf(),
            final(self).props == old(self).props,
            final(self).device_index == old(self).device_index,
            !(old(self).is_live(src) && old(self).is_live(dst)) ==> r == Err::<(), Error>(
                Error::InvalidValue,
            ) && *final(self) == *old(self),
            old(self).is_live(src) && old(self).is_live(dst) && (count > old(self).data_at(
                src,
            ).len() || count > old(self).data_at(dst).len()) ==> r == Err::<(), Error>(
                Error::DriverError,
            ) && *final(self) == *old(self),
            old(self).is_live(src) && old(self).is_live(dst) && count <= old(self).data_at(
                src,
            ).len() && count <= old(self).data_at(dst).len() ==> {
                &&& r == Ok::<(), Error>(())
                &&& final(self).allocations@.len() == old(self).allocations@.len()
                &&& forall|s: int|
                    0 <= s < old(self).allocations@.len() && s != dst.slot ==> final(self).allocations@[s] == old(self).allocations@[s]
                &&& final(self).is_live(dst)
                &&& final(self).data_at(dst) == transfer(
                    old(self).data_at(dst),
                    old(self).data_at(src),
                    count as int,
                )
                &&& final(self).used == old(self).used
            },
    {
        if src.slot >= self.allocations.len() || dst.slot >= self.allocations.len() {
            return Err(Error::InvalidValue);
        }
        let mut staged: Vec<u8> = Vec::new();
        match &self.allocations[src.slot] {
            None => {
                return Err(Error::InvalidValue);
            },
            Some(v) => {
                let mut i: usize = 0;
                while i < v.len()
                    invariant
                        i <= v@.len(),
                        staged@ =~= v@.take(i as int),
                    decreases v@.len() - i,
                {
                    staged.push(v[i]);
                    i = i + 1;
                    proof {
                        assert(staged@ =~= v@.take(i as int));
                    }
                }
                proof {
                    assert(staged@ =~= v@);
                }
            },
        }
        let mut fresh: Vec<u8> = Vec::new();
        match &self.allocations[dst.slot] {
            None => {
                return Err(Error::InvalidValue);
            },
            Some(v) => {
                if count > staged.len() || count > v.len() {
                    return Err(Error::DriverError);
                }
                let mut i: usize = 0;
                while i < count
                    invariant
                        i <= count,
                        count <= staged@.len(),
                        fresh@ =~= staged@.take(i as int),
                    decreases count - i,
                {
                    fresh.push(staged[i]);
                    i = i + 1;
                    proof {
                        assert(fresh@ =~= staged@.take(i as int));
                    }
                }
                while i < v.len()
                    invariant
                        count <= i <= v@.len(),
                        count <= staged@.len(),
                        fresh@ =~= staged@.take(count as int) + v@.subrange(
                            count as int,
                            i as int,
                        ),
                    decreases v@.len() - i,
                {
                    fresh.push(v[i]);
                    i = i + 1;
                    proof {
                        assert(fresh@ =~= staged@.take(count as int) + v@.subrange(
                            count as int,
                            i as int,
                        ));
                    }
                }
                proof {
                    assert(fresh@ =~= transfer(v@, staged@, count as int));
                }
            },
        }
        proof {
            lemma_live_bytes_update(
                self.allocations@,
                dst.slot as int,
                Some(fresh),
            );
        }
        self.allocations.set(dst.slot, Some(fresh));
        Ok(())
    }
}

} // verus!
