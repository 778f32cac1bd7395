//! A host-side model of a GPU compute driver: device enumeration, contexts,
//! kernel-image loading, device memory management, argument marshalling and
//! kernel launches, together with the device-side kernel contract (indexing
//! and mandatory bounds checks) that every kernel entry point must honor.

pub mod args;
pub mod bytes;
pub mod context;
pub mod device;
pub mod error;
pub mod geometry;
pub mod kernels;
pub mod launch;
pub mod laws;
pub mod module;
