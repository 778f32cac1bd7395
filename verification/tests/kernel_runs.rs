//! End-to-end kernel launches through the whole pipeline: initialize, device,
//! context, module load, entry-point resolution, memory transfers, launch,
//! read-back — checked against the host reference computations.

use gpu_compute::args::{pack_args, Arg};
use gpu_compute::bytes::{le_bytes_to_u32s, u32s_to_le_bytes};
use gpu_compute::context::Context;
use gpu_compute::device::{initialize, Device, DeviceProps};
use gpu_compute::error::Error;
use gpu_compute::geometry::{blocks_for, Block, Grid};
use gpu_compute::kernels::{host_elementwise_add, host_rgba_to_gray, luma_of, Rgba};
use gpu_compute::module::{build_image, Export, Function, KernelKind, Module};

fn test_props() -> DeviceProps {
    DeviceProps {
        compute_capability_major: 5,
        compute_capability_minor: 2,
        max_threads_per_block: 128,
        max_grid_dim_x: 65535,
        max_grid_dim_y: 65535,
        max_grid_dim_z: 65535,
        total_memory: 1 << 24,
    }
}

fn setup() -> (Device, Context, Module) {
    let driver = initialize(vec![test_props()]).unwrap();
    let device = driver.device(0).unwrap();
    let ctx = device.create_context().unwrap();
    let exports = vec![
        Export {
            name: b"add".to_vec(),
            kind: KernelKind::ElementwiseAdd,
        },
        Export {
            name: b"memcpy".to_vec(),
            kind: KernelKind::ElementwiseCopy,
        },
        Export {
            name: b"rgba2gray".to_vec(),
            kind: KernelKind::RgbaToGray,
        },
    ];
    let image = build_image(&exports).unwrap();
    let module = ctx.load_module(&image).unwrap();
    (device, ctx, module)
}

/// A small xorshift pseudo-random generator, so runs are reproducible per
/// seed.
fn xorshift(state: &mut u64) -> u32 {
    let mut x = *state;
    x ^= x << 13;
    x ^= x >> 7;
    x ^= x << 17;
    *state = x;
    (x >> 16) as u32
}

fn random_words(seed: u64, n: usize) -> Vec<u32> {
    let mut state = seed | 1;
    (0..n).map(|_| xorshift(&mut state)).collect()
}

/// Runs the elementwise-add kernel over `h_a` and `h_b` and returns the
/// read-back result.
fn run_add_kernel(device: &Device, ctx: &mut Context, kernel: &Function, h_a: &[u32], h_b: &[u32]) -> Vec<u32> {
    let n = h_a.len();
    let bytes = 4 * n;
    let a_bytes = u32s_to_le_bytes(&h_a.to_vec());
    let b_bytes = u32s_to_le_bytes(&h_b.to_vec());

    let d_a = ctx.allocate(bytes).unwrap();
    let d_b = ctx.allocate(bytes).unwrap();
    let d_c = ctx.allocate(bytes).unwrap();
    ctx.copy_to_device(&a_bytes, d_a, bytes).unwrap();
    ctx.copy_to_device(&b_bytes, d_b, bytes).unwrap();

    let nthreads = device.max_threads_per_block().unwrap();
    let nblocks = blocks_for(n as u32, nthreads);
    let args = vec![Arg::Ptr(d_a), Arg::Ptr(d_b), Arg::Ptr(d_c), Arg::U32(n as u32)];
    kernel
        .launch(ctx, &args, Grid::x(nblocks), Block::x(nthreads))
        .unwrap();

    let mut c_bytes = vec![0u8; bytes];
    ctx.copy_to_host(d_c, &mut c_bytes, bytes).unwrap();
    ctx.deallocate(d_a).unwrap();
    ctx.deallocate(d_b).unwrap();
    ctx.deallocate(d_c).unwrap();
    le_bytes_to_u32s(&c_bytes, n)
}

#[test]
fn add_kernel_matches_host_for_many_seeds() {
    let (device, mut ctx, module) = setup();
    let kernel = module.function(b"add").unwrap();
    // 1000 is not a multiple of the 128-thread block: the per-thread bounds
    // check keeps the over-provisioned threads quiet.
    for seed in 1..=5u64 {
        let h_a = random_words(seed, 1000);
        let h_b = random_words(seed.wrapping_mul(0x9e37_79b9), 1000);
        let got = run_add_kernel(&device, &mut ctx, &kernel, &h_a, &h_b);
        let want = host_elementwise_add(&h_a, &h_b);
        assert_eq!(got, want);
    }
}

#[test]
fn add_kernel_wraps_on_overflow() {
    let (device, mut ctx, module) = setup();
    let kernel = module.function(b"add").unwrap();
    let h_a = vec![u32::MAX, 1, 0xffff_fffe];
    let h_b = vec![1u32, u32::MAX, 3];
    let got = run_add_kernel(&device, &mut ctx, &kernel, &h_a, &h_b);
    assert_eq!(got, vec![0, 0, 1]);
}

fn run_memcpy_kernel(device: &Device, n: usize, seed: u64) {
    let (_, mut ctx, module) = setup();
    let kernel = module.function(b"memcpy").unwrap();
    let src = random_words(seed, n);
    let src_bytes = u32s_to_le_bytes(&src);
    let bytes = 4 * n;
    let d_src = ctx.allocate(bytes).unwrap();
    let d_dst = ctx.allocate(bytes).unwrap();
    ctx.copy_to_device(&src_bytes, d_src, bytes).unwrap();

    let nthreads = device.max_threads_per_block().unwrap();
    let nblocks = blocks_for(n as u32, nthreads);
    let args = vec![Arg::Ptr(d_dst), Arg::Ptr(d_src), Arg::U32(n as u32)];
    kernel
        .launch(&mut ctx, &args, Grid::x(nblocks), Block::x(nthreads))
        .unwrap();

    let mut back = vec![0u8; bytes];
    ctx.copy_to_host(d_dst, &mut back, bytes).unwrap();
    // Byte-identical to the source buffer.
    assert_eq!(back, src_bytes);
}

#[test]
fn memcpy_kernel_is_byte_identical_for_one_element() {
    let driver = initialize(vec![test_props()]).unwrap();
    let device = driver.device(0).unwrap();
    run_memcpy_kernel(&device, 1, 11);
}

#[test]
fn memcpy_kernel_is_byte_identical_for_one_full_block() {
    let driver = initialize(vec![test_props()]).unwrap();
    let device = driver.device(0).unwrap();
    // Exactly one full 128-thread block.
    run_memcpy_kernel(&device, 128, 12);
}

#[test]
fn memcpy_kernel_is_byte_identical_for_odd_sizes() {
    let driver = initialize(vec![test_props()]).unwrap();
    let device = driver.device(0).unwrap();
    run_memcpy_kernel(&device, 129, 13);
    run_memcpy_kernel(&device, 1000, 14);
}

fn pixels_to_bytes(pixels: &[Rgba]) -> Vec<u8> {
    let mut out = Vec::new();
    for p in pixels {
        out.push(p.r);
        out.push(p.g);
        out.push(p.b);
        out.push(p.a);
    }
    out
}

fn run_rgba2gray(w: i32, h: i32, block: Block, pixels: &[Rgba]) -> Vec<u8> {
    let (_, mut ctx, module) = setup();
    let kernel = module.function(b"rgba2gray").unwrap();
    let npixels = (w * h) as usize;
    assert_eq!(pixels.len(), npixels);
    let rgba_bytes = pixels_to_bytes(pixels);
    let d_rgba = ctx.allocate(4 * npixels).unwrap();
    let d_gray = ctx.allocate(npixels).unwrap();
    ctx.copy_to_device(&rgba_bytes, d_rgba, 4 * npixels).unwrap();

    let nblocks_x = blocks_for(w as u32, block.x);
    let nblocks_y = blocks_for(h as u32, block.y);
    let args = vec![Arg::Ptr(d_rgba), Arg::Ptr(d_gray), Arg::I32(w), Arg::I32(h)];
    kernel
        .launch(&mut ctx, &args, Grid::xy(nblocks_x, nblocks_y), block)
        .unwrap();

    let mut gray = vec![0u8; npixels];
    ctx.copy_to_host(d_gray, &mut gray, npixels).unwrap();
    gray
}

#[test]
fn rgba2gray_matches_cpu_reference_on_synthetic_image() {
    // A 3x3 image with known channel values.
    let mut pixels = Vec::new();
    for i in 0..9u32 {
        pixels.push(Rgba {
            r: (i * 20) as u8,
            g: (255 - i * 25) as u8,
            b: (i * 9 + 3) as u8,
            a: 255,
        });
    }
    let gray = run_rgba2gray(3, 3, Block::xy(8, 8), &pixels);
    let rgba_bytes = pixels_to_bytes(&pixels);
    let want = host_rgba_to_gray(&rgba_bytes, 9);
    assert_eq!(gray, want);
    // Spot-check the exact truncating formula on one pixel.
    let p = &pixels[4];
    let expected =
        ((299 * p.r as u32 + 589 * p.g as u32 + 114 * p.b as u32) / 1000) as u8;
    assert_eq!(gray[4], expected);
}

#[test]
fn rgba2gray_handles_dimensions_not_multiple_of_block() {
    // 5x3 pixels with a 2x2 block: neither dimension divides evenly, so the
    // per-thread bounds check must keep the extra threads from writing.
    let mut pixels = Vec::new();
    for i in 0..15u32 {
        pixels.push(Rgba {
            r: (i * 17) as u8,
            g: (i * 3) as u8,
            b: (200 - i * 13) as u8,
            a: 0,
        });
    }
    let gray = run_rgba2gray(5, 3, Block::xy(2, 2), &pixels);
    let rgba_bytes = pixels_to_bytes(&pixels);
    let want = host_rgba_to_gray(&rgba_bytes, 15);
    assert_eq!(gray, want);
}

#[test]
fn rgba2gray_never_writes_outside_the_image() {
    let (_, mut ctx, module) = setup();
    let kernel = module.function(b"rgba2gray").unwrap();
    let (w, h) = (3i32, 2i32);
    let npixels = 6usize;
    let rgba_bytes = vec![0x40u8; 4 * npixels];
    let d_rgba = ctx.allocate(4 * npixels).unwrap();
    // Four extra bytes past the image, primed with a sentinel.
    let d_gray = ctx.allocate(npixels + 4).unwrap();
    ctx.copy_to_device(&rgba_bytes, d_rgba, 4 * npixels).unwrap();
    let sentinel = vec![0xabu8; npixels + 4];
    ctx.copy_to_device(&sentinel, d_gray, npixels + 4).unwrap();

    // Over-provisioned geometry: 8x8 threads for a 3x2 image.
    let args = vec![Arg::Ptr(d_rgba), Arg::Ptr(d_gray), Arg::I32(w), Arg::I32(h)];
    kernel
        .launch(&mut ctx, &args, Grid::xy(1, 1), Block::xy(8, 8))
        .unwrap();

    let mut back = vec![0u8; npixels + 4];
    ctx.copy_to_host(d_gray, &mut back, npixels + 4).unwrap();
    let expected_gray = luma_of(0x40, 0x40, 0x40);
    assert_eq!(&back[..npixels], vec![expected_gray; npixels].as_slice());
    assert_eq!(&back[npixels..], &[0xab, 0xab, 0xab, 0xab]);
}

#[test]
fn luma_is_exact_integer_truncation() {
    assert_eq!(luma_of(0, 0, 0), 0);
    assert_eq!(luma_of(255, 255, 255), 255);
    // (299*100 + 589*50 + 114*25) / 1000 = 62200 / 1000 = 62, truncated.
    assert_eq!(luma_of(100, 50, 25), 62);
    // (299*1 + 589*1 + 114*1) / 1000 = 1002 / 1000 = 1.
    assert_eq!(luma_of(1, 1, 1), 1);
    // (299*3 + 589*0 + 114*0) / 1000 = 897 / 1000 = 0: truncation, not rounding.
    assert_eq!(luma_of(3, 0, 0), 0);
}

#[test]
fn oversized_block_is_invalid_value_before_execution() {
    let (_, mut ctx, module) = setup();
    let kernel = module.function(b"add").unwrap();
    let d_a = ctx.allocate(16).unwrap();
    let d_b = ctx.allocate(16).unwrap();
    let d_c = ctx.allocate(16).unwrap();
    let marker = vec![7u8; 16];
    ctx.copy_to_device(&marker, d_c, 16).unwrap();
    let args = vec![Arg::Ptr(d_a), Arg::Ptr(d_b), Arg::Ptr(d_c), Arg::U32(4)];
    // 129 threads per block exceeds the device's 128.
    let r = kernel.launch(&mut ctx, &args, Grid::x(1), Block::x(129));
    assert_eq!(r, Err(Error::InvalidValue));
    // Nothing executed: the output buffer is untouched.
    let mut back = vec![0u8; 16];
    ctx.copy_to_host(d_c, &mut back, 16).unwrap();
    assert_eq!(back, marker);
}

#[test]
fn zero_extent_geometry_is_invalid_value() {
    let (_, mut ctx, module) = setup();
    let kernel = module.function(b"add").unwrap();
    let d = ctx.allocate(16).unwrap();
    let args = vec![Arg::Ptr(d), Arg::Ptr(d), Arg::Ptr(d), Arg::U32(4)];
    assert_eq!(
        kernel.launch(&mut ctx, &args, Grid::x(0), Block::x(32)),
        Err(Error::InvalidValue)
    );
    assert_eq!(
        kernel.launch(&mut ctx, &args, Grid::x(1), Block::x(0)),
        Err(Error::InvalidValue)
    );
}

#[test]
fn ill_shaped_argument_lists_are_launch_failures() {
    let (_, mut ctx, module) = setup();
    let kernel = module.function(b"add").unwrap();
    let d = ctx.allocate(16).unwrap();
    // Wrong arity.
    let args = vec![Arg::Ptr(d), Arg::Ptr(d), Arg::Ptr(d)];
    assert_eq!(
        kernel.launch(&mut ctx, &args, Grid::x(1), Block::x(32)),
        Err(Error::LaunchFailure)
    );
    // Wrong kind in the last slot.
    let args = vec![Arg::Ptr(d), Arg::Ptr(d), Arg::Ptr(d), Arg::I32(4)];
    assert_eq!(
        kernel.launch(&mut ctx, &args, Grid::x(1), Block::x(32)),
        Err(Error::LaunchFailure)
    );
}

#[test]
fn undersized_buffer_faults_the_launch() {
    let (_, mut ctx, module) = setup();
    let kernel = module.function(b"add").unwrap();
    let d_a = ctx.allocate(16).unwrap();
    let d_b = ctx.allocate(16).unwrap();
    let d_c = ctx.allocate(8).unwrap();
    // n = 4 needs 16 bytes in each buffer; the output has 8.
    let args = vec![Arg::Ptr(d_a), Arg::Ptr(d_b), Arg::Ptr(d_c), Arg::U32(4)];
    assert_eq!(
        kernel.launch(&mut ctx, &args, Grid::x(1), Block::x(32)),
        Err(Error::LaunchFailure)
    );
}

#[test]
fn stale_buffer_faults_the_launch() {
    let (_, mut ctx, module) = setup();
    let kernel = module.function(b"memcpy").unwrap();
    let d_src = ctx.allocate(16).unwrap();
    let d_dst = ctx.allocate(16).unwrap();
    ctx.deallocate(d_src).unwrap();
    let args = vec![Arg::Ptr(d_dst), Arg::Ptr(d_src), Arg::U32(4)];
    assert_eq!(
        kernel.launch(&mut ctx, &args, Grid::x(1), Block::x(32)),
        Err(Error::LaunchFailure)
    );
}

#[test]
fn partial_coverage_leaves_trailing_elements_untouched() {
    let (device, mut ctx, module) = setup();
    let kernel = module.function(b"memcpy").unwrap();
    let src = random_words(21, 8);
    let src_bytes = u32s_to_le_bytes(&src);
    let d_src = ctx.allocate(32).unwrap();
    let d_dst = ctx.allocate(32).unwrap();
    ctx.copy_to_device(&src_bytes, d_src, 32).unwrap();
    let _ = device;
    // One 4-thread block covers only the first 4 of 8 elements.
    let args = vec![Arg::Ptr(d_dst), Arg::Ptr(d_src), Arg::U32(8)];
    kernel
        .launch(&mut ctx, &args, Grid::x(1), Block::x(4))
        .unwrap();
    let mut back = vec![0u8; 32];
    ctx.copy_to_host(d_dst, &mut back, 32).unwrap();
    assert_eq!(&back[..16], &src_bytes[..16]);
    // The uncovered tail keeps its zero fill.
    assert_eq!(&back[16..], vec![0u8; 16].as_slice());
}

#[test]
fn empty_image_domain_launch_succeeds_and_writes_nothing() {
    let (_, mut ctx, module) = setup();
    let kernel = module.function(b"rgba2gray").unwrap();
    let d_rgba = ctx.allocate(4).unwrap();
    let d_gray = ctx.allocate(4).unwrap();
    let args = vec![Arg::Ptr(d_rgba), Arg::Ptr(d_gray), Arg::I32(0), Arg::I32(3)];
    assert_eq!(kernel.launch(&mut ctx, &args, Grid::x(1), Block::x(8)), Ok(()));
    let mut back = vec![9u8; 4];
    ctx.copy_to_host(d_gray, &mut back, 4).unwrap();
    assert_eq!(back, vec![0u8; 4]);
}

#[test]
fn pack_args_preserves_order_and_byte_widths() {
    let (_, mut ctx, _) = setup();
    let p = ctx.allocate(4).unwrap();
    let args = vec![Arg::Ptr(p), Arg::U32(0x0403_0201), Arg::I32(-2), Arg::F32Bits(0x3f80_0000)];
    let packed = pack_args(&args);
    assert_eq!(packed.len(), 8 + 4 + 4 + 4);
    // The pointer: its slot index, 8 bytes little-endian.
    assert_eq!(&packed[..8], &[0, 0, 0, 0, 0, 0, 0, 0]);
    // The unsigned scalar, 4 bytes little-endian.
    assert_eq!(&packed[8..12], &[0x01, 0x02, 0x03, 0x04]);
    // The signed scalar, two's complement little-endian.
    assert_eq!(&packed[12..16], &[0xfe, 0xff, 0xff, 0xff]);
    // The float bit pattern, 4 bytes little-endian.
    assert_eq!(&packed[16..20], &[0x00, 0x00, 0x80, 0x3f]);
}
