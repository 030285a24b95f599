//! Resizing.
use kornia_wgpu::bytes::F32;
use kornia_wgpu::device::{DeviceOptions, WgpuDevice};
use kornia_wgpu::host::{Image, ImageSize};
use kornia_wgpu::kernel::Kernel;
use kornia_wgpu::ops::image::resize::{resize_bilinear_f32, resize_nearest_f32, ResizeImmediates};
use kornia_wgpu::ops::Immediates;
use kornia_wgpu::shader::PipelineKey;
use kornia_wgpu::transfer::src_buffer;
use kornia_wgpu::{image_to_cpu, image_to_gpu, WgpuSession};

fn noop_session() -> WgpuSession {
    let (device, queue) = wgpu::Device::noop(&wgpu::DeviceDescriptor {
        required_features: wgpu::Features::IMMEDIATES,
        required_limits: wgpu::Limits {
            max_immediate_size: 64,
            ..Default::default()
        },
        ..Default::default()
    });
    WgpuSession::on_device(WgpuDevice::from_parts(device, queue, DeviceOptions::default()))
}

/// A session on a device without immediate data.
fn plain_session() -> WgpuSession {
    let (device, queue) = wgpu::Device::noop(&wgpu::DeviceDescriptor::default());
    WgpuSession::on_device(WgpuDevice::from_parts(device, queue, DeviceOptions::default()))
}

/// The keys of the pipelines that a session keeps, by name and number of channels.
fn keys(session: &WgpuSession) -> Vec<PipelineKey> {
    let pipelines = session.device.pipeline_cache.values();
    let mut keys: Vec<PipelineKey> = pipelines.flatten().map(|(key, _)| *key).collect();
    keys.sort_by_key(|key| (key.shader_name, key.channels));
    keys
}

/// A session on a GPU that runs shaders, where the machine has one.
fn make_session() -> Option<WgpuSession> {
    let session = WgpuSession::new().ok();
    if session.is_none() {
        println!("no GPU adapter: what the shaders compute is not compared");
    }
    session
}

fn floats(values: impl IntoIterator<Item = f32>) -> Vec<F32> {
    values.into_iter().map(|v| F32 { bits: v.to_bits() }).collect()
}

fn values(data: &[F32]) -> Vec<f32> {
    data.iter().map(|v| f32::from_bits(v.bits)).collect()
}

#[test]
fn resize_test_resize_nearest_f32_upscale() {
    let Some(mut session) = make_session() else {
        return;
    };
    let in_size = ImageSize {
        width: 2,
        height: 2,
    };
    let original = Image::<F32, 1>::new(in_size, floats([1.0, 2.0, 3.0, 4.0])).unwrap();
    let gpu = image_to_gpu(&mut session, &original).unwrap();

    let resized = resize_nearest_f32(
        &mut session,
        &gpu,
        ImageSize {
            width: 4,
            height: 4,
        },
    )
    .unwrap();
    let resized_cpu = image_to_cpu(&mut session, &resized).unwrap();

    assert_eq!(
        values(resized_cpu.as_slice()),
        &[1.0, 1.0, 2.0, 2.0, 1.0, 1.0, 2.0, 2.0, 3.0, 3.0, 4.0, 4.0, 3.0, 3.0, 4.0, 4.0,]
    );
}

#[test]
fn resize_test_resize_bilinear_f32_upscale() {
    let Some(mut session) = make_session() else {
        return;
    };
    let in_size = ImageSize {
        width: 2,
        height: 2,
    };
    let original = Image::<F32, 1>::new(in_size, floats([1.0, 2.0, 3.0, 4.0])).unwrap();
    let gpu = image_to_gpu(&mut session, &original).unwrap();

    let resized = resize_bilinear_f32(
        &mut session,
        &gpu,
        ImageSize {
            width: 4,
            height: 4,
        },
    )
    .unwrap();
    let resized_cpu = image_to_cpu(&mut session, &resized).unwrap();

    let expected = [
        1.00f32, 1.25, 1.75, 2.00, 1.50, 1.75, 2.25, 2.50, 2.50, 2.75, 3.25, 3.50, 3.00, 3.25,
        3.75, 4.00,
    ];
    for (i, (&res, &exp)) in values(resized_cpu.as_slice())
        .iter()
        .zip(expected.iter())
        .enumerate()
    {
        assert!(
            (res - exp).abs() < 1e-4,
            "index {i}: expected {exp}, got {res}"
        );
    }
}

#[test]
fn test_resize_bilinear_3channel() {
    let Some(mut session) = make_session() else {
        return;
    };
    let in_size = ImageSize {
        width: 2,
        height: 2,
    };
    let data = floats([
        1.0f32, 0.0, 0.0, 0.0, 1.0, 0.0, 0.0, 0.0, 1.0, 1.0, 1.0, 1.0,
    ]);
    let original = Image::<F32, 3>::new(in_size, data).unwrap();
    let gpu = image_to_gpu(&mut session, &original).unwrap();

    let resized = resize_bilinear_f32(
        &mut session,
        &gpu,
        ImageSize {
            width: 4,
            height: 4,
        },
    )
    .unwrap();
    let resized_cpu = image_to_cpu(&mut session, &resized).unwrap();

    assert_eq!(resized_cpu.as_slice().len(), 4 * 4 * 3);
    assert!(values(resized_cpu.as_slice())
        .iter()
        .all(|&v| (0.0f32..=1.0).contains(&v)));
}

#[test]
fn resizing_keeps_the_input_and_compiles_once() {
    let mut session = noop_session();
    let in_size = ImageSize {
        width: 5,
        height: 3,
    };
    let data = floats((0..45).map(|i| i as f32));
    let original = Image::<F32, 3>::new(in_size, data.clone()).unwrap();
    let gpu = image_to_gpu(&mut session, &original).unwrap();
    let new_size = ImageSize {
        width: 33,
        height: 17,
    };

    let nearest = resize_nearest_f32(&mut session, &gpu, new_size).unwrap();
    assert_eq!(nearest.size(), new_size);
    assert_eq!(nearest.channels(), 3);
    assert_eq!(nearest.len(), 33 * 17 * 3 * 4);
    assert_eq!(src_buffer(&nearest).size(), 8192);
    assert_eq!(keys(&session).len(), 1);

    let bilinear = resize_bilinear_f32(&mut session, &nearest, in_size).unwrap();
    assert_eq!(bilinear.size(), in_size);
    assert_eq!(keys(&session).len(), 2);

    let again = resize_nearest_f32(&mut session, &gpu, in_size).unwrap();
    assert_eq!(again.size(), in_size);
    assert_eq!(keys(&session).len(), 2);

    assert_eq!(image_to_cpu(&mut session, &gpu).unwrap().as_slice(), data.as_slice());
}

#[test]
fn pipelines_are_kept_by_channel_count() {
    let mut session = noop_session();
    let size = ImageSize {
        width: 2,
        height: 1,
    };
    let grey = Image::<F32, 1>::new(size, floats([0.0, 1.0])).unwrap();
    let gpu = image_to_gpu(&mut session, &grey).unwrap();
    resize_nearest_f32(&mut session, &gpu, size).unwrap();
    let pair = Image::<F32, 2>::new(size, floats([0.0, 1.0, 2.0, 3.0])).unwrap();
    let gpu = image_to_gpu(&mut session, &pair).unwrap();
    resize_nearest_f32(&mut session, &gpu, size).unwrap();
    assert_eq!(keys(&session).len(), 2);
    let kept = keys(&session);
    assert_eq!(kept[0].shader_name, "ResizeNearest");
    assert_eq!(kept[0].channels, 1);
    assert_eq!(kept[1].channels, 2);
    assert_eq!(kept[1].wg_x, 16);
    assert_eq!(kept[1].pixel_bytes, 4);
}

#[test]
fn resizing_without_immediate_data() {
    let mut session = plain_session();
    let size = ImageSize {
        width: 2,
        height: 2,
    };
    let data = floats([0.0, 1.0, 2.0, 3.0]);
    let image = Image::<F32, 1>::new(size, data.clone()).unwrap();
    let gpu = image_to_gpu(&mut session, &image).unwrap();
    let larger = ImageSize {
        width: 4,
        height: 4,
    };
    assert!(session.allows_resize(Kernel::ResizeNearest, &gpu, larger));
    let nearest = resize_nearest_f32(&mut session, &gpu, larger).unwrap();
    let bilinear = resize_bilinear_f32(&mut session, &nearest, size).unwrap();
    assert_eq!(nearest.size(), larger);
    assert_eq!(bilinear.size(), size);
    assert_eq!(session.parameters.as_ref().unwrap().size(), 64);
    assert_eq!(keys(&session).len(), 2);
    assert_eq!(image_to_cpu(&mut session, &gpu).unwrap().as_slice(), data.as_slice());
}

#[test]
fn resizing_to_nothing_is_allowed() {
    let mut session = noop_session();
    let size = ImageSize {
        width: 1,
        height: 1,
    };
    let image = Image::<F32, 1>::new(size, floats([1.0])).unwrap();
    let gpu = image_to_gpu(&mut session, &image).unwrap();
    let nothing = ImageSize {
        width: 0,
        height: 7,
    };
    assert!(session.allows_resize(Kernel::ResizeNearest, &gpu, nothing));
    let resized = resize_nearest_f32(&mut session, &gpu, nothing).unwrap();
    assert_eq!(resized.size(), nothing);
    assert_eq!(resized.len(), 0);
}

#[test]
fn sizes_beyond_the_device_are_not_allowed() {
    let mut session = noop_session();
    let size = ImageSize {
        width: 1,
        height: 1,
    };
    let image = Image::<F32, 1>::new(size, floats([1.0])).unwrap();
    let gpu = image_to_gpu(&mut session, &image).unwrap();
    // One row of more than 65535 tiles.
    let wide = ImageSize {
        width: 65535 * 16 + 1,
        height: 1,
    };
    assert!(!session.allows_resize(Kernel::ResizeBilinear, &gpu, wide));
    let widest = ImageSize {
        width: 65535 * 16,
        height: 1,
    };
    assert!(session.allows_resize(Kernel::ResizeBilinear, &gpu, widest));
    let huge = ImageSize {
        width: usize::MAX,
        height: usize::MAX,
    };
    assert!(!session.allows_resize(Kernel::ResizeBilinear, &gpu, huge));
}

#[test]
fn immediates_are_six_words() {
    let immediates = ResizeImmediates {
        in_width: 1,
        in_height: 2,
        out_width: 3,
        out_height: 4,
        channels: 5,
        _pad: 0,
    };
    assert_eq!(immediates.to_words(), vec![1, 2, 3, 4, 5, 0]);
}

/// The output that was given back is the one that the next resize writes to.
#[test]
fn the_next_resize_allocates_nothing() {
    for mut session in [noop_session(), plain_session()] {
        let size = ImageSize {
            width: 3,
            height: 3,
        };
        let image = Image::<F32, 1>::new(size, floats((0..9).map(|i| i as f32))).unwrap();
        let gpu = image_to_gpu(&mut session, &image).unwrap();
        let larger = ImageSize {
            width: 9,
            height: 9,
        };
        let first = resize_nearest_f32(&mut session, &gpu, larger).unwrap();
        let output = src_buffer(&first).clone();
        let parameters = session.parameters.clone();
        session.release_image(first);
        assert_eq!(session.compute_pool.cached_count(), 1);
        let second = resize_bilinear_f32(&mut session, &gpu, larger).unwrap();
        assert_eq!(*src_buffer(&second), output);
        assert_eq!(session.parameters, parameters);
        assert_eq!(session.compute_pool.cached_count(), 0);
    }
}
