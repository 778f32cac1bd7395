//! The status/error model: typed outcomes of driver operations, and the
//! mapping from native driver status codes to those outcomes.

use vstd::prelude::*;

verus! {

/// Every fallible driver operation reports one of these typed outcomes.
#[derive(Clone, Copy, Debug, PartialEq, Eq, Structural)]
pub enum Error {
    /// Backend/runtime failure: initialization, a property query, or a
    /// transfer failed at the native layer.
    DriverError,
    /// A device index outside the enumerated range.
    InvalidDevice,
    /// A malformed or incompatible compiled kernel image.
    InvalidImage,
    /// A kernel entry point absent from a loaded module.
    NotFound,
    /// A device allocation failure.
    OutOfMemory,
    /// An invalid argument value: launch geometry beyond device limits, a
    /// zero-sized allocation, or an invalid device pointer.
    InvalidValue,
    /// A kernel execution fault reported by the device.
    LaunchFailure,
}

/// Native status code: success.
pub const STATUS_SUCCESS: u32 = 0;

/// Native status code: an argument value is invalid.
pub const STATUS_INVALID_VALUE: u32 = 1;

/// Native status code: the device is out of memory.
pub const STATUS_OUT_OF_MEMORY: u32 = 2;

/// Native status code: the driver has not been initialized.
pub const STATUS_NOT_INITIALIZED: u32 = 3;

/// Native status code: no compute device is available.
pub const STATUS_NO_DEVICE: u32 = 100;

/// Native status code: the device index is out of range.
pub const STATUS_INVALID_DEVICE: u32 = 101;

/// Native status code: the kernel image is malformed or incompatible.
pub const STATUS_INVALID_IMAGE: u32 = 200;

/// Native status code: a named symbol was not found.
pub const STATUS_NOT_FOUND: u32 = 500;

/// Native status code: a kernel launch faulted on the device.
pub const STATUS_LAUNCH_FAILED: u32 = 719;

/// The outcome that a native status code denotes: success for
/// `STATUS_SUCCESS`, the matching typed error for each known failure code,
/// and `DriverError` for any unrecognized code.
pub open spec fn spec_status_outcome(code: u32) -> Result<(), Error> {
    if code == STATUS_SUCCESS {
        Ok(())
    } else if code == STATUS_INVALID_VALUE {
        Err(Error::InvalidValue)
    } else if code == STATUS_OUT_OF_MEMORY {
        Err(Error::OutOfMemory)
    } else if code == STATUS_INVALID_DEVICE {
        Err(Error::InvalidDevice)
    } else if code == STATUS_INVALID_IMAGE {
        Err(Error::InvalidImage)
    } else if code == STATUS_NOT_FOUND {
        Err(Error::NotFound)
    } else if code == STATUS_LAUNCH_FAILED {
        Err(Error::LaunchFailure)
    } else {
        Err(Error::DriverError)
    }
}

/// Maps a native driver status code to a typed outcome.
pub fn status_to_outcome(code: u32) -> (r: Result<(), Error>)
    ensures
        r == spec_status_outcome(code),
{
    if code == STATUS_SUCCESS {
        Ok(())
    } else if code == STATUS_INVALID_VALUE {
        Err(Error::InvalidValue)
    } else if code == STATUS_OUT_OF_MEMORY {
        Err(Error::OutOfMemory)
    } else if code == STATUS_INVALID_DEVICE {
        Err(Error::InvalidDevice)
    } else if code == STATUS_INVALID_IMAGE {
        Err(Error::InvalidImage)
    } else if code == STATUS_NOT_FOUND {
        Err(Error::NotFound)
    } else if code == STATUS_LAUNCH_FAILED {
        Err(Error::LaunchFailure)
    } else {
        Err(Error::DriverError)
    }
}

impl Error {
    /// The text that `describe` returns for each variant.
    pub open spec fn spec_describe(self) -> Seq<char> {
        match self {
            Error::DriverError => "backend or runtime failure"@,
            Error::InvalidDevice => "device index out of range"@,
            Error::InvalidImage => "malformed or incompatible kernel image"@,
            Error::NotFound => "kernel entry point not found"@,
            Error::OutOfMemory => "device allocation failure"@,
            Error::InvalidValue => "invalid argument value"@,
            Error::LaunchFailure => "kernel execution fault"@,
        }
    }

    /// A short human-readable description of the error.
    pub fn describe(&self) -> (s: &'static str)
        ensures
            s@ == self.spec_describe(),
    {
        match self {
            Error::DriverError => "backend or runtime failure",
            Error::InvalidDevice => "device index out of range",
            Error::InvalidImage => "malformed or incompatible kernel image",
            Error::NotFound => "kernel entry point not found",
            Error::OutOfMemory => "device allocation failure",
            Error::InvalidValue => "invalid argument value",
            Error::LaunchFailure => "kernel execution fault",
        }
    }
}

} // verus!
