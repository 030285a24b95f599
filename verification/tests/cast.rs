//! Casts.
use kornia_wgpu::bytes::F32;
use kornia_wgpu::device::{DeviceOptions, WgpuDevice};
use kornia_wgpu::host::{Image, ImageSize};
use kornia_wgpu::ops::image::cast::{
    cast_f32_to_u8_gpu, cast_u8_to_f32_gpu, CastParams, SCALE_F32_TO_U8, SCALE_U8_TO_F32,
};
use kornia_wgpu::ops::Immediates;
use kornia_wgpu::shader::PipelineKey;
use kornia_wgpu::transfer::src_buffer;
use kornia_wgpu::{image_to_cpu, image_to_gpu, WgpuSession};

fn noop_session() -> WgpuSession {
    let (device, queue) = wgpu::Device::noop(&wgpu::DeviceDescriptor {
        required_features: wgpu::Features::IMMEDIATES,
        required_limits: wgpu::Limits {
            max_immediate_size: 64,
            ..Default::default()
        },
        ..Default::default()
    });
    WgpuSession::on_device(WgpuDevice::from_parts(device, queue, DeviceOptions::default()))
}

/// A session on a device without immediate data.
fn plain_session() -> WgpuSession {
    let (device, queue) = wgpu::Device::noop(&wgpu::DeviceDescriptor::default());
    WgpuSession::on_device(WgpuDevice::from_parts(device, queue, DeviceOptions::default()))
}

/// The keys of the pipelines that a session keeps, by name and number of channels.
fn keys(session: &WgpuSession) -> Vec<PipelineKey> {
    let pipelines = session.device.pipeline_cache.values();
    let mut keys: Vec<PipelineKey> = pipelines.flatten().map(|(key, _)| *key).collect();
    keys.sort_by_key(|key| (key.shader_name, key.channels));
    keys
}

/// A session on a GPU that runs shaders, where the machine has one.
fn make_session() -> Option<WgpuSession> {
    let session = WgpuSession::new().ok();
    if session.is_none() {
        println!("no GPU adapter: what the shaders compute is not compared");
    }
    session
}

fn floats(values: impl IntoIterator<Item = f32>) -> Vec<F32> {
    values.into_iter().map(|v| F32 { bits: v.to_bits() }).collect()
}

fn values(data: &[F32]) -> Vec<f32> {
    data.iter().map(|v| f32::from_bits(v.bits)).collect()
}

// ── cast_u8_to_f32_gpu ────────────────────────────────────────────────────

#[test]
fn test_cast_u8_to_f32_values() {
    let Some(mut session) = make_session() else {
        return;
    };
    let size = ImageSize {
        width: 2,
        height: 2,
    };
    let data = vec![0u8, 128, 255, 64, 32, 16, 200, 100, 50, 255, 0, 127];
    let cpu_image = Image::<u8, 3>::new(size, data.clone()).unwrap();

    let gpu_f32 = cast_u8_to_f32_gpu(&mut session, &cpu_image).unwrap();
    let _ = session
        .raw_device()
        .poll(wgpu::PollType::wait_indefinitely());
    let cpu_f32 = image_to_cpu(&mut session, &gpu_f32).unwrap();

    for (i, (&orig, &result)) in data.iter().zip(values(cpu_f32.as_slice()).iter()).enumerate() {
        let expected = orig as f32 / 255.0;
        assert!(
            (result - expected).abs() < 1e-6,
            "index {i}: expected {expected}, got {result}"
        );
    }
}

#[test]
fn test_cast_u8_to_f32_range() {
    let Some(mut session) = make_session() else {
        return;
    };
    let size = ImageSize {
        width: 1280,
        height: 720,
    };
    let data = (0..1280 * 720 * 3).map(|i| (i % 256) as u8).collect();
    let cpu_image = Image::<u8, 3>::new(size, data).unwrap();

    let gpu_f32 = cast_u8_to_f32_gpu(&mut session, &cpu_image).unwrap();
    let _ = session
        .raw_device()
        .poll(wgpu::PollType::wait_indefinitely());
    let cpu_f32 = image_to_cpu(&mut session, &gpu_f32).unwrap();

    assert!(values(cpu_f32.as_slice())
        .iter()
        .all(|&v| (0.0f32..=1.0).contains(&v)));
}

// ── cast_f32_to_u8_gpu ────────────────────────────────────────────────────

/// Round-trip u8 → f32 → u8 must be lossless for every value 0..=255
/// (the pack4x8unorm rounding is within ±1 ULP at u8 precision).
#[test]
fn test_cast_f32_to_u8_round_trip() {
    let Some(mut session) = make_session() else {
        return;
    };
    let size = ImageSize {
        width: 4,
        height: 4,
    };
    // Use a known pattern: one pixel per value, 1 channel, 4×4 = 16 pixels.
    let original_u8: Vec<u8> = (0u8..16).map(|v| v * 16).collect(); // 0, 16, 32, …, 240
    let cpu_u8 = Image::<u8, 1>::new(size, original_u8.clone()).unwrap();

    // u8 → f32 on GPU
    let gpu_f32 = cast_u8_to_f32_gpu(&mut session, &cpu_u8).unwrap();
    let _ = session
        .raw_device()
        .poll(wgpu::PollType::wait_indefinitely());

    // f32 → u8 on GPU
    let gpu_u8 = cast_f32_to_u8_gpu(&mut session, &gpu_f32).unwrap();
    let _ = session
        .raw_device()
        .poll(wgpu::PollType::wait_indefinitely());

    let result = image_to_cpu(&mut session, &gpu_u8).unwrap();

    for (i, (&orig, &got)) in original_u8.iter().zip(result.as_slice().iter()).enumerate() {
        // pack4x8unorm rounds to nearest, so we allow ±1 LSB.
        let diff = (orig as i32 - got as i32).abs();
        assert!(
            diff <= 1,
            "index {i}: original u8={orig}, round-tripped u8={got}, diff={diff}"
        );
    }
}

/// Values exactly at 0.0 and 1.0 must clamp correctly.
#[test]
fn test_cast_f32_to_u8_boundary_values() {
    let Some(mut session) = make_session() else {
        return;
    };
    let size = ImageSize {
        width: 4,
        height: 1,
    };
    // 0.0 → 0, 1.0 → 255, 0.5 → ~128, -0.1 → 0 (clamp), 1.5 → 255 (clamp)
    let data = floats([0.0f32, 1.0, 0.5, -0.1, 1.5, 0.0, 1.0, 0.0, 0.0, 1.0, 0.0, 1.0]);
    let cpu_f32 = Image::<F32, 3>::new(size, data).unwrap();
    let gpu_f32 = image_to_gpu(&mut session, &cpu_f32).unwrap();

    let gpu_u8 = cast_f32_to_u8_gpu(&mut session, &gpu_f32).unwrap();
    let _ = session
        .raw_device()
        .poll(wgpu::PollType::wait_indefinitely());
    let result = image_to_cpu(&mut session, &gpu_u8).unwrap();

    let s = result.as_slice();
    assert_eq!(s[0], 0, "0.0 → 0");
    assert_eq!(s[1], 255, "1.0 → 255");
    assert!(
        (s[2] as i32 - 128).abs() <= 1,
        "0.5 → ~128, got {}",
        s[2]
    );
    assert_eq!(s[3], 0, "-0.1 → 0 (saturate)");
    assert_eq!(s[4], 255, "1.5 → 255 (saturate)");
}

/// Matches the GPU output against a naive CPU reference on a 720p RGB frame.
#[test]
fn test_cast_f32_to_u8_matches_cpu_reference() {
    let Some(mut session) = make_session() else {
        return;
    };
    let size = ImageSize {
        width: 1280,
        height: 720,
    };
    let numel = 1280 * 720 * 3;
    // Ramp from 0.0 to just-below 1.0
    let data: Vec<f32> = (0..numel).map(|i| i as f32 / numel as f32).collect();
    let cpu_f32 = Image::<F32, 3>::new(size, floats(data.clone())).unwrap();
    let gpu_f32 = image_to_gpu(&mut session, &cpu_f32).unwrap();

    let gpu_u8 = cast_f32_to_u8_gpu(&mut session, &gpu_f32).unwrap();
    let _ = session
        .raw_device()
        .poll(wgpu::PollType::wait_indefinitely());
    let result = image_to_cpu(&mut session, &gpu_u8).unwrap();

    // CPU reference: scale, clamp and truncate
    let reference: Vec<u8> = data
        .iter()
        .map(|&v| (v * 255.0).clamp(0.0, 255.0) as u8)
        .collect();

    let mismatches: Vec<usize> = result
        .as_slice()
        .iter()
        .zip(reference.iter())
        .enumerate()
        .filter(|(_, (&gpu, &cpu))| (gpu as i32 - cpu as i32).abs() > 1)
        .map(|(i, _)| i)
        .collect();

    assert!(
        mismatches.is_empty(),
        "{} pixels differ by more than 1 LSB (first: index {})",
        mismatches.len(),
        mismatches[0]
    );
}

/// Non-multiple-of-4 element count (tail-word handling).
#[test]
fn test_cast_f32_to_u8_non_aligned_numel() {
    let Some(mut session) = make_session() else {
        return;
    };
    // 3×1 = 3 elements — not divisible by 4
    let size = ImageSize {
        width: 3,
        height: 1,
    };
    let data = floats([0.0f32, 0.5, 1.0]);
    let cpu_f32 = Image::<F32, 1>::new(size, data).unwrap();
    let gpu_f32 = image_to_gpu(&mut session, &cpu_f32).unwrap();

    let gpu_u8 = cast_f32_to_u8_gpu(&mut session, &gpu_f32).unwrap();
    let _ = session
        .raw_device()
        .poll(wgpu::PollType::wait_indefinitely());
    let result = image_to_cpu(&mut session, &gpu_u8).unwrap();

    assert_eq!(result.as_slice().len(), 3);
    assert_eq!(result.as_slice()[0], 0);
    assert!((result.as_slice()[1] as i32 - 128).abs() <= 1);
    assert_eq!(result.as_slice()[2], 255);
}

// ── Handing over ──────────────────────────────────────────────────────────

#[test]
fn casts_are_handed_over_and_compiled_once() {
    let mut session = noop_session();
    let size = ImageSize {
        width: 5,
        height: 3,
    };
    let image = Image::<u8, 1>::new(size, (0..15).collect()).unwrap();
    assert!(session.allows_cast_to_f32(size, 1));
    for _ in 0..2 {
        let gpu_f32 = cast_u8_to_f32_gpu(&mut session, &image).unwrap();
        assert_eq!(gpu_f32.size(), size);
        assert_eq!(gpu_f32.len(), 60);
        assert!(session.allows_cast_to_u8(&gpu_f32));
        let gpu_u8 = cast_f32_to_u8_gpu(&mut session, &gpu_f32).unwrap();
        assert_eq!(gpu_u8.size(), size);
        assert_eq!(gpu_u8.len(), 15);
        assert_eq!(src_buffer(&gpu_u8).size(), 64);
        assert_eq!(keys(&session).len(), 2);
        session.release_image(gpu_f32);
        session.release_image(gpu_u8);
    }
    // The upload, the output and the result of the way back.
    assert_eq!(session.compute_pool.cached_count(), 2);
    let key = keys(&session)[1];
    assert_eq!(key.shader_name, "CastU8ToF32");
    assert_eq!((key.pixel_bytes, key.channels, key.wg_x, key.wg_y, key.variant), (1, 1, 64, 1, 0));
    let key = keys(&session)[0];
    assert_eq!(key.shader_name, "CastF32ToU8");
    assert_eq!((key.pixel_bytes, key.channels, key.wg_x, key.wg_y, key.variant), (4, 1, 64, 1, 0));
}

/// After the first frame a cast takes all its buffers from the pool.
#[test]
fn the_next_cast_allocates_nothing() {
    for mut session in [noop_session(), plain_session()] {
        let size = ImageSize {
            width: 33,
            height: 7,
        };
        let image = Image::<u8, 3>::new(size, vec![9; 33 * 7 * 3]).unwrap();
        let first = cast_u8_to_f32_gpu(&mut session, &image).unwrap();
        assert_eq!(session.compute_pool.cached_count(), 1);
        let output = src_buffer(&first).clone();
        let parameters = session.parameters.clone();
        session.release_image(first);
        assert_eq!(session.compute_pool.cached_count(), 2);
        let second = cast_u8_to_f32_gpu(&mut session, &image).unwrap();
        assert_eq!(*src_buffer(&second), output);
        assert_eq!(session.parameters, parameters);
        assert_eq!(session.compute_pool.cached_count(), 1);
    }
}

/// Without immediate data the parameters go through one small uniform buffer.
#[test]
fn casts_without_immediate_data() {
    let mut session = plain_session();
    assert!(session.parameters.is_none());
    let size = ImageSize {
        width: 4,
        height: 2,
    };
    let image = Image::<u8, 1>::new(size, (0..8).collect()).unwrap();
    assert!(session.allows_cast_to_f32(size, 1));
    let gpu_f32 = cast_u8_to_f32_gpu(&mut session, &image).unwrap();
    let parameters = session.parameters.clone().unwrap();
    assert_eq!(parameters.size(), 64);
    assert_eq!(
        parameters.usage(),
        wgpu::BufferUsages::UNIFORM | wgpu::BufferUsages::COPY_DST
    );
    assert!(session.allows_cast_to_u8(&gpu_f32));
    let gpu_u8 = cast_f32_to_u8_gpu(&mut session, &gpu_f32).unwrap();
    assert_eq!(gpu_u8.len(), 8);
    assert_eq!(keys(&session).len(), 2);
    assert_eq!(session.parameters, Some(parameters));
}

/// A frame of more than 65535 * 64 components takes a second row of workgroups.
#[test]
fn a_full_hd_frame_is_handed_over() {
    let mut session = noop_session();
    let size = ImageSize {
        width: 1920,
        height: 1080,
    };
    let image = Image::<u8, 3>::new(size, vec![7; 1920 * 1080 * 3]).unwrap();
    assert!(session.allows_cast_to_f32(size, 3));
    let gpu_f32 = cast_u8_to_f32_gpu(&mut session, &image).unwrap();
    assert_eq!(gpu_f32.len(), 1920 * 1080 * 3 * 4);
    let gpu_u8 = cast_f32_to_u8_gpu(&mut session, &gpu_f32).unwrap();
    assert_eq!(gpu_u8.len(), 1920 * 1080 * 3);
}

#[test]
fn nothing_cannot_be_cast_from_the_cpu() {
    let mut session = noop_session();
    let nothing = ImageSize {
        width: 0,
        height: 3,
    };
    assert!(!session.allows_cast_to_f32(nothing, 1));
    assert!(!session.allows_cast_to_f32(
        ImageSize {
            width: usize::MAX,
            height: 1,
        },
        1
    ));
    let empty = Image::<F32, 1>::new(nothing, vec![]).unwrap();
    let gpu = image_to_gpu(&mut session, &empty).unwrap();
    assert!(session.allows_cast_to_u8(&gpu));
    let cast = cast_f32_to_u8_gpu(&mut session, &gpu).unwrap();
    assert_eq!(cast.len(), 0);
}

#[test]
fn parameters_are_a_count_and_a_scale() {
    assert_eq!(SCALE_U8_TO_F32, (1.0f32 / 255.0).to_bits());
    assert_eq!(SCALE_F32_TO_U8, 255.0f32.to_bits());
    let params = CastParams {
        numel: 5,
        scale: F32 {
            bits: SCALE_F32_TO_U8,
        },
        _pad: [0, 0],
    };
    assert_eq!(params.to_words(), vec![5, 0x437f_0000, 0, 0]);
}
