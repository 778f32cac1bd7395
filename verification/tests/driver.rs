//! Driver-level behavior: status codes, enumeration, memory management,
//! module loading and entry-point lookup.

use gpu_compute::context::{Context, DevicePtr};
use gpu_compute::device::{initialize, DeviceProps};
use gpu_compute::error::{
    status_to_outcome, Error, STATUS_INVALID_DEVICE, STATUS_INVALID_IMAGE, STATUS_INVALID_VALUE,
    STATUS_LAUNCH_FAILED, STATUS_NOT_FOUND, STATUS_OUT_OF_MEMORY, STATUS_SUCCESS,
};
use gpu_compute::module::{build_image, Export, KernelKind};

fn test_props() -> DeviceProps {
    DeviceProps {
        compute_capability_major: 5,
        compute_capability_minor: 2,
        max_threads_per_block: 1024,
        max_grid_dim_x: 65535,
        max_grid_dim_y: 65535,
        max_grid_dim_z: 65535,
        total_memory: 1 << 20,
    }
}

fn test_context() -> Context {
    let driver = initialize(vec![test_props()]).unwrap();
    let device = driver.device(0).unwrap();
    device.create_context().unwrap()
}

fn one_export_image(name: &[u8], kind: KernelKind) -> Vec<u8> {
    let exports = vec![Export {
        name: name.to_vec(),
        kind,
    }];
    build_image(&exports).unwrap()
}

#[test]
fn status_codes_map_to_typed_outcomes() {
    assert_eq!(status_to_outcome(STATUS_SUCCESS), Ok(()));
    assert_eq!(status_to_outcome(STATUS_INVALID_VALUE), Err(Error::InvalidValue));
    assert_eq!(status_to_outcome(STATUS_OUT_OF_MEMORY), Err(Error::OutOfMemory));
    assert_eq!(status_to_outcome(STATUS_INVALID_DEVICE), Err(Error::InvalidDevice));
    assert_eq!(status_to_outcome(STATUS_INVALID_IMAGE), Err(Error::InvalidImage));
    assert_eq!(status_to_outcome(STATUS_NOT_FOUND), Err(Error::NotFound));
    assert_eq!(status_to_outcome(STATUS_LAUNCH_FAILED), Err(Error::LaunchFailure));
    // An unrecognized code is a backend failure.
    assert_eq!(status_to_outcome(9999), Err(Error::DriverError));
}

#[test]
fn error_descriptions_are_distinct() {
    let all = [
        Error::DriverError,
        Error::InvalidDevice,
        Error::InvalidImage,
        Error::NotFound,
        Error::OutOfMemory,
        Error::InvalidValue,
        Error::LaunchFailure,
    ];
    for (i, a) in all.iter().enumerate() {
        for (j, b) in all.iter().enumerate() {
            if i != j {
                assert_ne!(a.describe(), b.describe());
            }
        }
    }
}

#[test]
fn initialize_without_devices_is_a_driver_error() {
    assert!(matches!(initialize(vec![]), Err(Error::DriverError)));
}

#[test]
fn device_index_out_of_range_is_invalid_device() {
    let driver = initialize(vec![test_props()]).unwrap();
    assert_eq!(driver.device_count(), 1);
    assert!(driver.device(0).is_ok());
    assert!(matches!(driver.device(1), Err(Error::InvalidDevice)));
}

#[test]
fn device_properties_are_queryable() {
    let driver = initialize(vec![test_props()]).unwrap();
    let device = driver.device(0).unwrap();
    assert_eq!(device.max_threads_per_block(), Ok(1024));
    assert_eq!(device.compute_capability(), Ok((5, 2)));
}

#[test]
fn allocate_zero_bytes_is_a_defined_error() {
    let mut ctx = test_context();
    assert_eq!(ctx.allocate(0), Err(Error::InvalidValue));
}

#[test]
fn deallocate_null_pointer_is_a_defined_error() {
    let mut ctx = test_context();
    assert_eq!(ctx.deallocate(DevicePtr::null()), Err(Error::InvalidValue));
}

#[test]
fn double_free_is_reported_not_performed() {
    let mut ctx = test_context();
    let p = ctx.allocate(64).unwrap();
    assert_eq!(ctx.deallocate(p), Ok(()));
    assert_eq!(ctx.deallocate(p), Err(Error::InvalidValue));
}

#[test]
fn allocation_beyond_total_memory_is_out_of_memory() {
    let mut ctx = test_context();
    let total = 1 << 20;
    let p = ctx.allocate(total - 16).unwrap();
    assert_eq!(ctx.allocate(32), Err(Error::OutOfMemory));
    // Releasing makes room again.
    assert_eq!(ctx.deallocate(p), Ok(()));
    assert!(ctx.allocate(32).is_ok());
}

#[test]
fn copy_round_trip_reproduces_the_bytes() {
    let mut ctx = test_context();
    let data: Vec<u8> = (0..251u32).map(|i| (i * 7 % 256) as u8).collect();
    let dev = ctx.allocate(data.len()).unwrap();
    ctx.copy_to_device(&data, dev, data.len()).unwrap();
    let mut back = vec![0u8; data.len()];
    ctx.copy_to_host(dev, &mut back, data.len()).unwrap();
    assert_eq!(back, data);
}

#[test]
fn copy_with_stale_pointer_is_invalid_value() {
    let mut ctx = test_context();
    let p = ctx.allocate(16).unwrap();
    ctx.deallocate(p).unwrap();
    let data = vec![1u8; 16];
    assert_eq!(ctx.copy_to_device(&data, p, 16), Err(Error::InvalidValue));
    let mut back = vec![0u8; 16];
    assert_eq!(ctx.copy_to_host(p, &mut back, 16), Err(Error::InvalidValue));
}

#[test]
fn copy_overrunning_a_buffer_is_a_transfer_failure() {
    let mut ctx = test_context();
    let p = ctx.allocate(8).unwrap();
    let data = vec![1u8; 16];
    assert_eq!(ctx.copy_to_device(&data, p, 16), Err(Error::DriverError));
    let mut small = vec![0u8; 4];
    assert_eq!(ctx.copy_to_host(p, &mut small, 8), Err(Error::DriverError));
}

#[test]
fn device_to_device_copy_moves_the_bytes() {
    let mut ctx = test_context();
    let data: Vec<u8> = (0..32u8).collect();
    let a = ctx.allocate(32).unwrap();
    let b = ctx.allocate(32).unwrap();
    ctx.copy_to_device(&data, a, 32).unwrap();
    ctx.copy_device_to_device(a, b, 32).unwrap();
    let mut back = vec![0u8; 32];
    ctx.copy_to_host(b, &mut back, 32).unwrap();
    assert_eq!(back, data);
}

#[test]
fn fresh_allocations_are_zeroed() {
    let mut ctx = test_context();
    let p = ctx.allocate(16).unwrap();
    let mut back = vec![0xffu8; 16];
    ctx.copy_to_host(p, &mut back, 16).unwrap();
    assert_eq!(back, vec![0u8; 16]);
}

#[test]
fn empty_image_is_invalid_image_never_not_found() {
    let ctx = test_context();
    let r = ctx.load_module(&[]);
    assert!(matches!(r, Err(Error::InvalidImage)));
}

#[test]
fn corrupted_images_are_invalid_image() {
    let ctx = test_context();
    let good = one_export_image(b"add", KernelKind::ElementwiseAdd);

    // Bad magic.
    let mut bad = good.clone();
    bad[0] ^= 0xff;
    assert_eq!(ctx.load_module(&bad).err(), Some(Error::InvalidImage));

    // Wrong format version.
    let mut bad = good.clone();
    bad[4] = 2;
    assert_eq!(ctx.load_module(&bad).err(), Some(Error::InvalidImage));

    // Truncated record region.
    let bad = &good[..good.len() - 1];
    assert_eq!(ctx.load_module(bad).err(), Some(Error::InvalidImage));

    // Trailing garbage after the declared records.
    let mut bad = good.clone();
    bad.push(0);
    assert_eq!(ctx.load_module(&bad).err(), Some(Error::InvalidImage));

    // Unknown kernel kind byte.
    let mut bad = good.clone();
    bad[9] = 77;
    assert_eq!(ctx.load_module(&bad).err(), Some(Error::InvalidImage));
}

#[test]
fn lookup_of_missing_entry_point_is_not_found() {
    let ctx = test_context();
    let image = one_export_image(b"add", KernelKind::ElementwiseAdd);
    let module = ctx.load_module(&image).unwrap();
    assert!(module.function(b"add").is_ok());
    assert!(matches!(module.function(b"missing"), Err(Error::NotFound)));
    // Lookup is exact and case-sensitive.
    assert!(matches!(module.function(b"Add"), Err(Error::NotFound)));
    assert!(matches!(module.function(b"ad"), Err(Error::NotFound)));
}

#[test]
fn build_image_round_trips_several_exports() {
    let ctx = test_context();
    let exports = vec![
        Export {
            name: b"add".to_vec(),
            kind: KernelKind::ElementwiseAdd,
        },
        Export {
            name: b"memcpy".to_vec(),
            kind: KernelKind::ElementwiseCopy,
        },
        Export {
            name: b"rgba2gray".to_vec(),
            kind: KernelKind::RgbaToGray,
        },
    ];
    let image = build_image(&exports).unwrap();
    let module = ctx.load_module(&image).unwrap();
    assert_eq!(module.function(b"add").unwrap().kind, KernelKind::ElementwiseAdd);
    assert_eq!(module.function(b"memcpy").unwrap().kind, KernelKind::ElementwiseCopy);
    assert_eq!(module.function(b"rgba2gray").unwrap().kind, KernelKind::RgbaToGray);
}

#[test]
fn build_image_rejects_unencodable_names() {
    let empty_name = vec![Export {
        name: vec![],
        kind: KernelKind::ElementwiseAdd,
    }];
    assert!(matches!(build_image(&empty_name), Err(Error::InvalidValue)));
    let long_name = vec![Export {
        name: vec![b'x'; 256],
        kind: KernelKind::ElementwiseAdd,
    }];
    assert!(matches!(build_image(&long_name), Err(Error::InvalidValue)));
}
