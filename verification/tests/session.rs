//! Pools and round trips of a session.
use kornia_wgpu::bytes::F32;
use kornia_wgpu::device::{DeviceOptions, WgpuDevice};
use kornia_wgpu::host::{Image, ImageSize};
use kornia_wgpu::transfer::src_buffer;
use kornia_wgpu::{image_to_cpu, image_to_gpu, WgpuSession};

fn noop_session() -> WgpuSession {
    let (device, queue) = wgpu::Device::noop(&wgpu::DeviceDescriptor {
        required_features: wgpu::Features::IMMEDIATES,
        required_limits: wgpu::Limits {
            max_immediate_size: 64,
            ..Default::default()
        },
        ..Default::default()
    });
    WgpuSession::on_device(WgpuDevice::from_parts(device, queue, DeviceOptions::default()))
}

/// A session without a GPU behind it, and one with, where the machine has one.
fn sessions() -> Vec<WgpuSession> {
    let mut sessions = vec![noop_session()];
    if let Ok(session) = WgpuSession::new() {
        sessions.push(session);
    }
    sessions
}

fn floats(values: impl IntoIterator<Item = f32>) -> Vec<F32> {
    values.into_iter().map(|v| F32 { bits: v.to_bits() }).collect()
}

fn test_image_4x4() -> Image<F32, 1> {
    let size = ImageSize {
        width: 4,
        height: 4,
    };
    Image::new(size, floats((0..16).map(|i| i as f32))).unwrap()
}

#[test]
fn compute_pool_recycles_buffer() {
    for mut session in sessions() {
        let cpu = test_image_4x4();

        let before = session.compute_pool.cached_count();

        let gpu1 = image_to_gpu(&mut session, &cpu).unwrap();
        assert_eq!(
            session.compute_pool.cached_count(),
            before,
            "cached_count must not increase while buffer is in use"
        );

        session.release_image(gpu1);

        assert_eq!(
            session.compute_pool.cached_count(),
            before + 1,
            "cached_count must increase by 1 after Image is dropped"
        );

        let gpu2 = image_to_gpu(&mut session, &cpu).unwrap();
        assert_eq!(
            session.compute_pool.cached_count(),
            before,
            "cached_count must decrease by 1 when pool acquires again"
        );

        session.release_image(gpu2);
    }
}

#[test]
fn compute_pool_separate_size_classes() {
    for mut session in sessions() {
        let small = Image::<F32, 1>::new(
            ImageSize {
                width: 2,
                height: 2,
            },
            floats(vec![1.0f32; 4]),
        )
        .unwrap();
        let large = Image::<F32, 1>::new(
            ImageSize {
                width: 8,
                height: 8,
            },
            floats(vec![1.0f32; 64]),
        )
        .unwrap();

        let gpu_s = image_to_gpu(&mut session, &small).unwrap();
        let gpu_l = image_to_gpu(&mut session, &large).unwrap();

        assert_ne!(
            src_buffer(&gpu_s),
            src_buffer(&gpu_l),
            "different size classes must not share a buffer"
        );
        assert_eq!(src_buffer(&gpu_s).size(), 64);
        assert_eq!(src_buffer(&gpu_l).size(), 256);
    }
}

#[test]
fn staging_pool_recycles_and_data_is_correct() {
    for mut session in sessions() {
        let cpu = test_image_4x4();
        let gpu = image_to_gpu(&mut session, &cpu).unwrap();

        let dl1 = image_to_cpu(&mut session, &gpu).unwrap();
        assert_eq!(
            dl1.as_slice(),
            cpu.as_slice(),
            "first download must be exact"
        );

        assert!(
            session.staging_pool.cached_count() >= 1,
            "staging pool must have reclaimed the buffer after download"
        );

        let dl2 = image_to_cpu(&mut session, &gpu).unwrap();
        assert_eq!(
            dl2.as_slice(),
            cpu.as_slice(),
            "second download via recycled buffer must be exact"
        );
    }
}

#[test]
fn staging_pool_overflow_still_works() {
    for mut session in sessions() {
        let cpu = test_image_4x4();
        let data = floats((0..16).map(|i| i as f32));
        let gpu = image_to_gpu(&mut session, &cpu).unwrap();

        for i in 0..5 {
            let dl = image_to_cpu(&mut session, &gpu).unwrap();
            assert_eq!(
                dl.as_slice(),
                data.as_slice(),
                "download {i}: data corrupted"
            );
        }
    }
}

#[test]
fn compute_pool_respects_max_per_class() {
    for mut session in sessions() {
        let cpu = test_image_4x4();

        let mut images = Vec::new();
        for _ in 0..6 {
            images.push(image_to_gpu(&mut session, &cpu).unwrap());
        }
        for image in images {
            session.release_image(image);
        }

        assert_eq!(
            session.compute_pool.cached_count(),
            4,
            "pool must cap at max_per_class=4, not cache all 6"
        );
    }
}

#[test]
fn round_trip_preserves_pixels() {
    for mut session in sessions() {
        let numel = 32 * 32 * 3;
        let data = floats((0..numel).map(|i| i as f32 / numel as f32));
        let cpu = Image::<F32, 3>::new(
            ImageSize {
                width: 32,
                height: 32,
            },
            data.clone(),
        )
        .unwrap();

        let gpu = image_to_gpu(&mut session, &cpu).unwrap();
        let dl = image_to_cpu(&mut session, &gpu).unwrap();

        assert_eq!(dl.as_slice().len(), numel);
        for (i, (got, expected)) in dl.as_slice().iter().zip(data.iter()).enumerate() {
            assert_eq!(got, expected, "pixel {i} mismatch");
        }
    }
}

#[test]
fn the_buffer_released_last_is_the_next() {
    let mut session = noop_session();
    let cpu = test_image_4x4();
    let first = image_to_gpu(&mut session, &cpu).unwrap();
    let second = image_to_gpu(&mut session, &cpu).unwrap();
    let first_buffer = src_buffer(&first).clone();
    let second_buffer = src_buffer(&second).clone();
    assert_ne!(first_buffer, second_buffer);

    session.release_image(first);
    session.release_image(second);
    assert_eq!(session.compute_pool.cached_count(), 2);

    let third = image_to_gpu(&mut session, &cpu).unwrap();
    let fourth = image_to_gpu(&mut session, &cpu).unwrap();
    assert_eq!(src_buffer(&third), &second_buffer);
    assert_eq!(src_buffer(&fourth), &first_buffer);
    assert_eq!(session.compute_pool.cached_count(), 0);
}

#[test]
fn other_images_are_left_alone() {
    let mut session = noop_session();
    let a = Image::<u8, 1>::new(ImageSize { width: 5, height: 1 }, vec![1, 2, 3, 4, 5]).unwrap();
    let b = Image::<u8, 1>::new(ImageSize { width: 5, height: 1 }, vec![6, 7, 8, 9, 10]).unwrap();
    let gpu_a = image_to_gpu(&mut session, &a).unwrap();
    let gpu_b = image_to_gpu(&mut session, &b).unwrap();
    assert_eq!(image_to_cpu(&mut session, &gpu_b).unwrap().as_slice(), b.as_slice());
    session.release_image(gpu_b);
    let gpu_c = image_to_gpu(&mut session, &b).unwrap();
    assert_eq!(image_to_cpu(&mut session, &gpu_a).unwrap().as_slice(), a.as_slice());
    assert_eq!(image_to_cpu(&mut session, &gpu_c).unwrap().as_slice(), b.as_slice());
}

#[test]
fn staging_class_is_stocked_once() {
    let mut session = noop_session();
    assert_eq!(session.staging_pool.cached_count(), 0);
    let cpu = test_image_4x4();
    let gpu = image_to_gpu(&mut session, &cpu).unwrap();
    for _ in 0..3 {
        image_to_cpu(&mut session, &gpu).unwrap();
        assert_eq!(session.staging_pool.cached_count(), 3);
    }
}

#[test]
fn buffers_beyond_the_limit_are_not_allowed() {
    let session = noop_session();
    let limit = wgpu::Limits::default().max_buffer_size;
    assert!(session.allows_buffer(limit));
    assert!(!session.allows_buffer(limit + 1));
    assert!(!session.allows_buffer(u64::MAX));
    assert_eq!(session.raw_device().limits().max_buffer_size, limit);
    let _queue: &wgpu::Queue = session.raw_queue();
}

#[test]
fn the_last_handle_releases_the_buffer() {
    let mut session = noop_session();
    let alloc = session.acquire_compute(64);
    let buffer = alloc.gpu_buffer().clone();
    let guard = alloc.into_guard().share().share();
    assert_eq!(*guard.buffer(), buffer);
    let guard = session.release_handle(guard);
    let guard = session.release_handle(guard);
    assert_eq!(session.compute_pool.cached_count(), 0);
    assert_eq!(*guard.buffer(), buffer);
    session.release_handle(guard);
    assert_eq!(session.compute_pool.cached_count(), 1);
    assert_eq!(*session.acquire_compute(10).gpu_buffer(), buffer);
}

/// An image that was released in between does not matter to the others.
#[test]
fn a_round_trip_across_a_release() {
    for mut session in sessions() {
        let other = image_to_gpu(&mut session, &test_image_4x4()).unwrap();
        let cpu = Image::<F32, 1>::new(
            ImageSize {
                width: 4,
                height: 4,
            },
            floats((0..16).map(|i| 100.0 - i as f32)),
        )
        .unwrap();
        let gpu = image_to_gpu(&mut session, &cpu).unwrap();
        session.release_image(other);
        let reused = image_to_gpu(&mut session, &test_image_4x4()).unwrap();
        let back = image_to_cpu(&mut session, &gpu).unwrap();
        assert_eq!(back.as_slice(), cpu.as_slice());
        session.release_image(reused);
        session.release_image(gpu);
    }
}
