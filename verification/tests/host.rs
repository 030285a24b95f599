//! Images, tensors and bytes on the CPU.
use kornia_wgpu::allocator::{PooledBufferGuard, WgpuAllocator};
use kornia_wgpu::bytes::{decode, encode, Plain, F32};
use kornia_wgpu::gpu::Gpu;
use kornia_wgpu::host::{product_of, Image, ImageSize, ShapeError, Tensor};
use kornia_wgpu::pool::BufferPool;
use kornia_wgpu::{GpuPixel, WgpuError};

#[test]
fn an_image_takes_exactly_its_components() {
    let size = ImageSize {
        width: 3,
        height: 2,
    };
    let image = Image::<u8, 2>::new(size, (0..12).collect()).unwrap();
    assert_eq!(image.size(), size);
    assert_eq!(image.as_slice(), (0..12).collect::<Vec<u8>>().as_slice());

    match Image::<u8, 2>::new(size, vec![0; 11]) {
        Err(WgpuError::ImageError(text)) => {
            assert_eq!(text, "Data length (11) does not match the image size (12)")
        }
        _ => panic!("eleven components were taken"),
    }
}

#[test]
fn a_tensor_takes_exactly_its_elements() {
    let tensor = Tensor::from_shape_vec([2, 3, 4], (0u32..24).collect()).unwrap();
    assert_eq!(tensor.shape(), &[2, 3, 4]);
    assert_eq!(tensor.strides(), &[12, 4, 1]);
    assert_eq!(tensor.as_slice().len(), 24);
    assert_eq!(tensor.as_slice()[23], 23);
    match Tensor::from_shape_vec([2, 2], vec![1u32; 5]) {
        Err(error) => assert_eq!(error, ShapeError::InvalidShape(4)),
        Ok(_) => panic!("five elements were taken"),
    }
    assert_eq!(product_of(&[2, 3, 4]), 24);
    assert_eq!(product_of(&[]), 1);
    assert_eq!(product_of(&[5, 0]), 0);
}

#[test]
fn elements_are_in_the_order_of_the_machine() {
    let halves = [0x0102u16.to_ne_bytes(), 3u16.to_ne_bytes()].concat();
    let word = 0x0102_0304u32.to_ne_bytes();
    assert_eq!(encode(&[1u8, 2, 255]), vec![1, 2, 255]);
    assert_eq!(encode(&[0x0102u16, 3]), halves);
    assert_eq!(encode(&[0x0102_0304u32]), word);
    assert_eq!(encode(&[-2i32]), (-2i32).to_ne_bytes());
    let one = F32 {
        bits: 1.0f32.to_bits(),
    };
    assert_eq!(encode(&[one]), 1.0f32.to_ne_bytes());
    assert_eq!(decode::<u16>(&halves), vec![0x0102, 3]);
    assert_eq!(decode::<u32>(&word), vec![0x0102_0304]);
    assert_eq!(decode::<i32>(&(-2i32).to_ne_bytes()), vec![-2]);
    assert_eq!(decode::<F32>(&1.0f32.to_ne_bytes()), vec![one]);
    assert_eq!(decode::<u8>(&[9, 8]), vec![9, 8]);
    assert_eq!(decode::<F32>(&[]), vec![]);
}

#[test]
fn pixel_types() {
    assert_eq!(<u8 as GpuPixel>::WGSL_TYPE, "u32");
    assert_eq!(<u16 as GpuPixel>::WGSL_TYPE, "u32");
    assert_eq!(<F32 as GpuPixel>::WGSL_TYPE, "f32");
    assert_eq!(<u8 as GpuPixel>::BYTE_SIZE, std::mem::size_of::<u8>());
    assert_eq!(<u16 as GpuPixel>::BYTE_SIZE, std::mem::size_of::<u16>());
    assert_eq!(<F32 as GpuPixel>::BYTE_SIZE, std::mem::size_of::<F32>());
    assert_eq!(<u8 as GpuPixel>::PACK_FACTOR, 4);
    assert_eq!(<u16 as GpuPixel>::PACK_FACTOR, 2);
    assert_eq!(<F32 as GpuPixel>::PACK_FACTOR, 1);
    assert_eq!(<u32 as Plain>::BYTES, 4);
}

#[test]
fn gpu_memory_is_not_cpu_memory() {
    assert!(matches!(
        WgpuAllocator::cpu_access_error(),
        WgpuError::CpuAccessOnGpuBuffer
    ));
    assert!(matches!(
        WgpuAllocator::err_cpu_access::<Vec<u8>>(),
        Err(WgpuError::CpuAccessOnGpuBuffer)
    ));
}

#[test]
fn a_guard_holds_its_buffer() {
    let (device, queue) = wgpu::Device::noop(&wgpu::DeviceDescriptor::default());
    let mut gpu = Gpu { device, queue };
    let mut pool = BufferPool::new(4);
    let buffer = pool.acquire(&mut gpu, 10);
    let handle = buffer.clone();
    let guard = PooledBufferGuard::pooled(buffer);
    assert_eq!(guard.buffer(), &handle);
    assert_eq!(guard.share().buffer(), &handle);
    assert_eq!(pool.cached_count(), 0);

    let alloc = WgpuAllocator::pooled(handle.clone());
    assert_eq!(alloc.gpu_buffer(), &handle);
    assert_eq!(alloc.into_guard().buffer(), &handle);
}

#[test]
fn strides_are_carried_along() {
    let tensor = Tensor::from_shape_vec([2, 3], vec![1u32, 2, 3, 4, 5, 6]).unwrap();
    assert_eq!(tensor.strides(), &[3, 1]);
    let columns = tensor.with_strides([1, 2]);
    assert_eq!(columns.strides(), &[1, 2]);
    assert_eq!(columns.shape(), &[2, 3]);
    assert_eq!(columns.as_slice(), &[1, 2, 3, 4, 5, 6]);
}
