//! Elementwise operations.
use kornia_wgpu::bytes::F32;
use kornia_wgpu::device::{DeviceOptions, WgpuDevice};
use kornia_wgpu::host::Tensor;
use kornia_wgpu::ops::tensor::elementwise::{add, compute_dispatch, relu, ElemParams};
use kornia_wgpu::ops::tensor::GpuElement;
use kornia_wgpu::ops::{div_ceil, grid, Immediates};
use kornia_wgpu::shader::PipelineKey;
use kornia_wgpu::transfer::src_buffer_tensor;
use kornia_wgpu::WgpuSession;

fn noop_session() -> WgpuSession {
    let (device, queue) = wgpu::Device::noop(&wgpu::DeviceDescriptor {
        required_features: wgpu::Features::IMMEDIATES,
        required_limits: wgpu::Limits {
            max_immediate_size: 64,
            ..Default::default()
        },
        ..Default::default()
    });
    WgpuSession::on_device(WgpuDevice::from_parts(device, queue, DeviceOptions::default()))
}

/// A session on a device without immediate data.
fn plain_session() -> WgpuSession {
    let (device, queue) = wgpu::Device::noop(&wgpu::DeviceDescriptor::default());
    WgpuSession::on_device(WgpuDevice::from_parts(device, queue, DeviceOptions::default()))
}

/// The keys of the pipelines that a session keeps, by name and number of channels.
fn keys(session: &WgpuSession) -> Vec<PipelineKey> {
    let pipelines = session.device.pipeline_cache.values();
    let mut keys: Vec<PipelineKey> = pipelines.flatten().map(|(key, _)| *key).collect();
    keys.sort_by_key(|key| (key.shader_name, key.channels));
    keys
}

/// A session on a GPU that runs shaders, where the machine has one.
fn make_session() -> Option<WgpuSession> {
    let session = WgpuSession::new().ok();
    if session.is_none() {
        println!("no GPU adapter: what the shaders compute is not compared");
    }
    session
}

fn floats(values: impl IntoIterator<Item = f32>) -> Vec<F32> {
    values.into_iter().map(|v| F32 { bits: v.to_bits() }).collect()
}

fn values(data: &[F32]) -> Vec<f32> {
    data.iter().map(|v| f32::from_bits(v.bits)).collect()
}

#[test]
fn test_tensor_add_and_relu_e2e() {
    let Some(mut session) = make_session() else {
        return;
    };

    let shape = [2, 2];
    let cpu_a = Tensor::from_shape_vec(shape, floats([1.0f32, -20.0, 3.0, -50.0])).unwrap();
    let cpu_b = Tensor::from_shape_vec(shape, floats([10.0f32, 5.0, 30.0, 10.0])).unwrap();

    let gpu_a = session.upload_tensor(&cpu_a).unwrap();
    let gpu_b = session.upload_tensor(&cpu_b).unwrap();
    let gpu_sum = add(&mut session, &gpu_a, &gpu_b).unwrap();
    let gpu_relu = relu(&mut session, &gpu_sum).unwrap();

    let cpu_sum = session.download_tensor(&gpu_sum).unwrap();
    let cpu_relu = session.download_tensor(&gpu_relu).unwrap();

    assert_eq!(values(cpu_sum.as_slice()), &[11.0, -15.0, 33.0, -40.0]);
    assert_eq!(values(cpu_relu.as_slice()), &[11.0, 0.0, 33.0, 0.0]);
}

#[test]
fn operations_share_one_pipeline() {
    let mut session = noop_session();
    let cpu_a = Tensor::from_shape_vec([3, 2], floats((0..6).map(|i| i as f32))).unwrap();
    let gpu_a = session.upload_tensor(&cpu_a).unwrap();
    assert!(session.allows_operand(&gpu_a));
    assert!(session.allows_elementwise(6));
    let gpu_sum = add(&mut session, &gpu_a, &gpu_a).unwrap();
    let gpu_relu = relu(&mut session, &gpu_sum).unwrap();
    assert_eq!(gpu_relu.shape(), &[3, 2]);
    assert_eq!(gpu_relu.strides(), &[2, 1]);
    assert_eq!(gpu_relu.len(), 24);
    assert_eq!(src_buffer_tensor(&gpu_relu).size(), 64);
    assert_eq!(keys(&session).len(), 1);
    let key = keys(&session)[0];
    assert_eq!(key.shader_name, "TensorElementwise");
    assert_eq!((key.pixel_bytes, key.channels, key.wg_x, key.wg_y, key.variant), (4, 1, 64, 1, 0));
    assert_eq!(
        values(session.download_tensor(&gpu_a).unwrap().as_slice()),
        &[0.0, 1.0, 2.0, 3.0, 4.0, 5.0]
    );
}

#[test]
fn operations_without_immediate_data() {
    let mut session = plain_session();
    let cpu = Tensor::from_shape_vec([2, 3], floats((0..6).map(|i| i as f32))).unwrap();
    let gpu = session.upload_tensor(&cpu).unwrap();
    assert!(session.allows_elementwise(6));
    let sum = add(&mut session, &gpu, &gpu).unwrap();
    let parameters = session.parameters.clone().unwrap();
    let out = relu(&mut session, &sum).unwrap();
    assert_eq!(out.shape(), &[2, 3]);
    assert_eq!(session.parameters, Some(parameters));
    assert_eq!(keys(&session).len(), 1);
}

#[test]
fn operations_on_no_elements() {
    let mut session = noop_session();
    let empty = Tensor::from_shape_vec([0, 4], floats([])).unwrap();
    let gpu = session.upload_tensor(&empty).unwrap();
    let out = relu(&mut session, &gpu).unwrap();
    assert_eq!(out.shape(), &[0, 4]);
    assert_eq!(out.len(), 0);
}

#[test]
fn grids_stay_within_the_limit() {
    assert_eq!(compute_dispatch(0), (0, 1));
    assert_eq!(compute_dispatch(1), (1, 1));
    assert_eq!(compute_dispatch(1024), (1, 1));
    assert_eq!(compute_dispatch(1025), (2, 1));
    assert_eq!(compute_dispatch(65535 * 1024), (65535, 1));
    // One workgroup more than a row holds: two rows of half the length.
    assert_eq!(compute_dispatch(65535 * 1024 + 1), (32768, 2));
    let (x, y) = compute_dispatch(u32::MAX);
    assert_eq!((x, y), (64528, 65));
    assert!(x <= 65535 && y <= 65535);
    assert!(x as u64 * y as u64 * 1024 >= u32::MAX as u64);
}

#[test]
fn each_quad_is_reached_once() {
    for numel in [1u32, 5, 1024, 1025, 4099] {
        let (wg_x, wg_y) = compute_dispatch(numel);
        let width = wg_x as usize * 256;
        let quads = numel.div_ceil(4) as usize;
        let mut reached = vec![0; quads];
        for y in 0..wg_y as usize {
            for x in 0..width {
                if let Some(count) = reached.get_mut(x + y * width) {
                    *count += 1;
                }
            }
        }
        assert!(reached.iter().all(|&count| count == 1));
    }
}

#[test]
fn groups_cover() {
    assert_eq!(div_ceil(0, 16), 0);
    assert_eq!(div_ceil(16, 16), 1);
    assert_eq!(div_ceil(17, 16), 2);
    assert_eq!(div_ceil(u32::MAX, 1), u32::MAX);
    assert_eq!(div_ceil(u32::MAX, 2), 0x8000_0000);
    assert_eq!(grid(65535), (65535, 1));
    assert_eq!(grid(65536), (32768, 2));
    assert_eq!(grid(131071), (43691, 3));
}

#[test]
fn parameters_are_four_words() {
    let params = ElemParams {
        numel: 7,
        op_kind: 9,
        dispatch_x: 1,
        _pad: 0,
    };
    assert_eq!(params.to_words(), vec![7, 9, 1, 0]);
}

#[test]
fn element_types() {
    assert_eq!(<F32 as GpuElement>::WGSL_TYPE, "f32");
    assert_eq!(<u32 as GpuElement>::WGSL_TYPE, "u32");
    assert_eq!(<i32 as GpuElement>::WGSL_TYPE, "i32");
    assert_eq!(<F32 as GpuElement>::BYTE_SIZE, 4);
    assert_eq!(<u32 as GpuElement>::BYTE_SIZE, 4);
    assert_eq!(<i32 as GpuElement>::BYTE_SIZE, 4);
}
