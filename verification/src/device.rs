//! Driver initialization and device enumeration: process-wide setup of the
//! driver model, and handles to the enumerated compute devices with their
//! queryable properties.

use vstd::prelude::*;
use crate::context::Context;
use crate::error::Error;

verus! {

/// The queryable properties of one compute device.
#[derive(Clone, Copy, Debug, PartialEq, Eq, Structural)]
pub struct DeviceProps {
    /// Major compute capability number.
    pub compute_capability_major: u32,
    /// Minor compute capability number.
    pub compute_capability_minor: u32,
    /// The largest number of threads one block may hold.
    pub max_threads_per_block: u32,
    /// The largest grid extent along x.
    pub max_grid_dim_x: u32,
    /// The largest grid extent along y.
    pub max_grid_dim_y: u32,
    /// The largest grid extent along z.
    pub max_grid_dim_z: u32,
    /// The total device memory, in bytes.
    pub total_memory: usize,
}

/// The initialized driver: the one entry to device enumeration. All other
/// operations descend from a `Driver` through a `Device` and a `Context`.
pub struct Driver {
    pub devices: Vec<DeviceProps>,
}

/// A handle to one enumerated compute device. Immutable once enumerated; a
/// handle, not an owned resource.
#[derive(Clone, Copy, Debug, PartialEq, Eq, Structural)]
pub struct Device {
    /// The index under which the device was enumerated.
    pub index: usize,
    /// The device's properties, as enumerated.
    pub props: DeviceProps,
}

/// Brings the driver up over the given enumerated devices. Fails with
/// `DriverError` when no compute device is present, the one way bring-up can
/// fail in this model. Must precede every other operation, which all descend
/// from the returned `Driver`.
pub fn initialize(devices: Vec<DeviceProps>) -> (r: Result<Driver, Error>)
    ensures
        devices@.len() >= 1 ==> (r matches Ok(d) && d.devices@ == devices@),
        devices@.len() == 0 ==> r == Err::<Driver, Error>(Error::DriverError),
{
    if devices.len() == 0 {
        Err(Error::DriverError)
    } else {
        Ok(Driver { devices })
    }
}

impl Driver {
    /// The number of enumerated devices.
    pub fn device_count(&self) -> (n: usize)
        ensures
            n == self.devices@.len(),
    {
        self.devices.len()
    }

    /// The device enumerated under `index`. Fails with `InvalidDevice` if and
    /// only if `index` is outside the enumerated range.
    pub fn device(&self, index: usize) -> (r: Result<Device, Error>)
        ensures
            index < self.devices@.len() ==> (r matches Ok(d) && d.index == index && d.props
                == self.devices@[index as int]),
            index >= self.devices@.len() ==> r == Err::<Device, Error>(Error::InvalidDevice),
    {
        if index < self.devices.len() {
            Ok(Device { index, props: self.devices[index] })
        } else {
            Err(Error::InvalidDevice)
        }
    }
}

impl Device {
    /// The largest number of threads one block may hold on this device.
    /// In this model the query itself cannot fail, so the result is always
    /// `Ok`; a native backend would report `DriverError` here instead.
    pub fn max_threads_per_block(&self) -> (r: Result<u32, Error>)
        ensures
            r == Ok::<u32, Error>(self.props.max_threads_per_block),
    {
        Ok(self.props.max_threads_per_block)
    }

    /// The device's compute capability as a `(major, minor)` pair. Always
    /// `Ok` in this model; a native backend would report `DriverError` here.
    pub fn compute_capability(&self) -> (r: Result<(u32, u32), Error>)
        ensures
            r == Ok::<(u32, u32), Error>(
                (self.props.compute_capability_major, self.props.compute_capability_minor),
            ),
    {
        Ok((self.props.compute_capability_major, self.props.compute_capability_minor))
    }

    /// Creates an execution scope bound to this device, with no modules
    /// loaded and no memory allocated. Always `Ok` in this model; a native
    /// backend would report `DriverError` on resource exhaustion.
    pub fn create_context(&self) -> (r: Result<Context, Error>)
        ensures
            r matches Ok(c) && c.props == self.props && c.device_index == self.index
                && c.allocations@.len() == 0 && c.used == 0,
            r matches Ok(c) && c.wf(),
    {
        Ok(Context::empty_for(self.index, self.props))
    }
}

} // verus!
