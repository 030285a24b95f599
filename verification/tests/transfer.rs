//! Uploads and downloads.
use kornia_wgpu::bytes::F32;
use kornia_wgpu::device::{DeviceOptions, WgpuDevice};
use kornia_wgpu::host::{Image, ImageSize, Tensor};
use kornia_wgpu::transfer::{
    align_up, checked_len, decode_image, decode_tensor, src_buffer, src_buffer_tensor,
};
use kornia_wgpu::{image_to_cpu, image_to_gpu, WgpuSession};

fn noop_session() -> WgpuSession {
    let (device, queue) = wgpu::Device::noop(&wgpu::DeviceDescriptor {
        required_features: wgpu::Features::IMMEDIATES,
        required_limits: wgpu::Limits {
            max_immediate_size: 64,
            ..Default::default()
        },
        ..Default::default()
    });
    WgpuSession::on_device(WgpuDevice::from_parts(device, queue, DeviceOptions::default()))
}

/// A session without a GPU behind it, and one with, where the machine has one.
fn sessions() -> Vec<WgpuSession> {
    let mut sessions = vec![noop_session()];
    if let Ok(session) = WgpuSession::new() {
        sessions.push(session);
    }
    sessions
}

fn floats(values: impl IntoIterator<Item = f32>) -> Vec<F32> {
    values.into_iter().map(|v| F32 { bits: v.to_bits() }).collect()
}

#[test]
fn test_gpu_round_trip() {
    for mut session in sessions() {
        let size = ImageSize {
            width: 2,
            height: 2,
        };
        let original = Image::<u8, 1>::new(size, vec![10, 20, 30, 40]).unwrap();

        let gpu = image_to_gpu(&mut session, &original).expect("upload failed");
        let downloaded = image_to_cpu(&mut session, &gpu).expect("download failed");

        assert_eq!(original.as_slice(), downloaded.as_slice());
    }
}

/// Specifically exercises a non-multiple-of-4 byte size to catch
/// COPY_BUFFER_ALIGNMENT regressions.
#[test]
fn test_gpu_round_trip_non_aligned() {
    for mut session in sessions() {
        // 3×1 u8 1-channel = 3 bytes — not aligned to 4
        let size = ImageSize {
            width: 3,
            height: 1,
        };
        let original = Image::<u8, 1>::new(size, vec![10u8, 20, 30]).unwrap();
        let gpu = image_to_gpu(&mut session, &original).expect("upload failed");
        let downloaded = image_to_cpu(&mut session, &gpu).expect("download failed");
        assert_eq!(original.as_slice(), downloaded.as_slice());

        // 1×1 RGB f32 = 12 bytes — aligned, sanity check
        let size2 = ImageSize {
            width: 1,
            height: 1,
        };
        let original2 = Image::<F32, 3>::new(size2, floats([0.1f32, 0.5, 0.9])).unwrap();
        let gpu2 = image_to_gpu(&mut session, &original2).expect("upload failed");
        let downloaded2 = image_to_cpu(&mut session, &gpu2).expect("download failed");
        assert_eq!(original2.as_slice(), downloaded2.as_slice());
    }
}

#[test]
fn round_trip_of_words_and_halves() {
    for mut session in sessions() {
        let halves = vec![0u16, 1, 255, 256, 0xabcd, u16::MAX];
        let size = ImageSize {
            width: 3,
            height: 2,
        };
        let image = Image::<u16, 1>::new(size, halves.clone()).unwrap();
        let gpu = image_to_gpu(&mut session, &image).unwrap();
        assert_eq!(gpu.size(), size);
        assert_eq!(gpu.channels(), 1);
        assert_eq!(gpu.len(), 12);
        let back = image_to_cpu(&mut session, &gpu).unwrap();
        assert_eq!(back.size(), size);
        assert_eq!(back.as_slice(), halves.as_slice());

        let words = vec![0u32, 1, 0x0102_0304, u32::MAX, 77, 88];
        let tensor = Tensor::from_shape_vec([2, 3], words.clone()).unwrap();
        let gpu = session.upload_tensor(&tensor).unwrap();
        assert_eq!(gpu.shape(), &[2, 3]);
        assert_eq!(gpu.strides(), &[3, 1]);
        let back = session.download_tensor(&gpu).unwrap();
        assert_eq!(back.shape(), &[2, 3]);
        assert_eq!(back.strides(), &[3, 1]);
        assert_eq!(back.as_slice(), words.as_slice());

        let signed = vec![0i32, -1, i32::MIN, i32::MAX];
        let tensor = Tensor::from_shape_vec([4], signed.clone()).unwrap();
        let gpu = session.upload_tensor(&tensor).unwrap();
        assert_eq!(session.download_tensor(&gpu).unwrap().as_slice(), signed.as_slice());
        session.release_tensor(gpu);
        assert_eq!(session.compute_pool.cached_count(), 1);
    }
}

#[test]
fn nan_bits_survive_a_round_trip() {
    let mut session = noop_session();
    let bits = vec![F32 { bits: 0x7fc0_1234 }, F32 { bits: 0x8000_0000 }];
    let tensor = Tensor::from_shape_vec([2], bits.clone()).unwrap();
    let gpu = session.upload_tensor(&tensor).unwrap();
    assert_eq!(session.download_tensor(&gpu).unwrap().as_slice(), bits.as_slice());
}

#[test]
fn align_up_gives_the_next_multiple_of_four() {
    assert_eq!(align_up(0), 0);
    assert_eq!(align_up(1), 4);
    assert_eq!(align_up(3), 4);
    assert_eq!(align_up(4), 4);
    assert_eq!(align_up(5), 8);
    assert_eq!(align_up(u64::MAX - 3), u64::MAX - 3);
    assert_eq!(align_up(u64::MAX - 4), u64::MAX - 3);
}

#[test]
fn lengths_that_overflow_are_not_counted() {
    let size = ImageSize {
        width: 640,
        height: 480,
    };
    assert_eq!(checked_len::<F32>(size, 3), Some(640 * 480 * 3 * 4));
    assert_eq!(checked_len::<u8>(size, 3), Some(640 * 480 * 3));
    let huge = ImageSize {
        width: usize::MAX,
        height: 2,
    };
    assert_eq!(checked_len::<u8>(huge, 1), None);
    let flat = ImageSize {
        width: usize::MAX,
        height: 0,
    };
    assert_eq!(checked_len::<u8>(flat, 2), None);
    assert_eq!(checked_len::<u8>(flat, 1), Some(0));
}

#[test]
fn decoding_leaves_the_padding_out() {
    let size = ImageSize {
        width: 3,
        height: 1,
    };
    let image = decode_image::<u8, 1>(size, vec![1, 2, 3, 0]).unwrap();
    assert_eq!(image.as_slice(), &[1, 2, 3]);
    assert_eq!(image.size(), size);

    let tensor = decode_tensor::<u32, 2>([1, 2], vec![1, 0, 0, 0, 0, 1, 0, 0]).unwrap();
    assert_eq!(tensor.as_slice(), &[1, 256]);
    assert_eq!(tensor.shape(), &[1, 2]);
}

#[test]
fn what_a_session_allows() {
    let mut session = noop_session();
    let size = ImageSize {
        width: 3,
        height: 1,
    };
    assert!(session.allows_upload::<u8>(size, 1));
    assert!(!session.allows_upload::<u8>(
        ImageSize {
            width: usize::MAX,
            height: 1,
        },
        1
    ));
    assert!(!session.allows_upload::<F32>(
        ImageSize {
            width: 1 << 20,
            height: 1 << 20,
        },
        4
    ));
    let image = Image::<u8, 1>::new(size, vec![1, 2, 3]).unwrap();
    let gpu = image_to_gpu(&mut session, &image).unwrap();
    assert!(session.allows_download(&gpu));
    assert_eq!(src_buffer(&gpu).size(), 64);

    let empty = Image::<u8, 1>::new(
        ImageSize {
            width: 0,
            height: 4,
        },
        vec![],
    )
    .unwrap();
    let gpu = image_to_gpu(&mut session, &empty).unwrap();
    assert!(!session.allows_download(&gpu));

    let tensor = Tensor::from_shape_vec([20], vec![7u32; 20]).unwrap();
    assert!(session.allows_upload_tensor(&tensor));
    let gpu = session.upload_tensor(&tensor).unwrap();
    assert!(session.allows_download_tensor(&gpu));
    assert_eq!(src_buffer_tensor(&gpu).size(), 128);
}
