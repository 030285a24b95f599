//! Pools on their own.
use kornia_wgpu::gpu::Gpu;
use kornia_wgpu::pool::{class_of, BufferPool, StagingPoolMap};

fn noop_gpu() -> Gpu {
    let (device, queue) = wgpu::Device::noop(&wgpu::DeviceDescriptor::default());
    Gpu { device, queue }
}

#[test]
fn classes_are_powers_of_two_from_64() {
    for (n, class) in [
        (0, 64),
        (1, 64),
        (64, 64),
        (65, 128),
        (128, 128),
        (129, 256),
        (1 << 40, 1 << 40),
        ((1 << 40) + 1, 1 << 41),
        (1 << 63, 1 << 63),
    ] {
        assert_eq!(class_of(n), class);
        assert_eq!(class_of(class), class);
    }
}

#[test]
fn a_pool_keeps_up_to_its_maximum() {
    let mut gpu = noop_gpu();
    let mut pool = BufferPool::new(2);
    assert_eq!(pool.cached_count(), 0);
    let a = pool.acquire(&mut gpu, 100);
    let b = pool.acquire(&mut gpu, 128);
    let c = pool.acquire(&mut gpu, 65);
    let d = pool.acquire(&mut gpu, 64);
    assert_eq!(a.size(), 128);
    assert_eq!(b.size(), 128);
    assert_eq!(c.size(), 128);
    assert_eq!(d.size(), 64);
    assert_eq!(
        a.usage(),
        wgpu::BufferUsages::STORAGE | wgpu::BufferUsages::COPY_SRC | wgpu::BufferUsages::COPY_DST
    );
    let first = a.clone();
    let second = b.clone();
    pool.release(a);
    pool.release(b);
    pool.release(c);
    pool.release(d);
    assert_eq!(pool.cached_count(), 3);
    assert_eq!(pool.acquire(&mut gpu, 70), second);
    assert_eq!(pool.acquire(&mut gpu, 70), first);
    assert_eq!(pool.cached_count(), 1);
    pool.clear();
    assert_eq!(pool.cached_count(), 0);
}

/// A buffer whose size is no class would be too small for its class.
#[test]
fn a_size_that_is_no_class_is_not_kept() {
    let mut gpu = noop_gpu();
    let mut pool = BufferPool::new(4);
    for size in [100, 4, 96] {
        pool.release(gpu.device.create_buffer(&wgpu::BufferDescriptor {
            label: None,
            size,
            usage: wgpu::BufferUsages::STORAGE,
            mapped_at_creation: false,
        }));
        assert_eq!(pool.cached_count(), 0);
    }
    assert_eq!(pool.acquire(&mut gpu, 120).size(), 128);
}

#[test]
fn a_pool_that_keeps_nothing() {
    let mut gpu = noop_gpu();
    let mut pool = BufferPool::new(0);
    let a = pool.acquire(&mut gpu, 1);
    pool.release(a);
    assert_eq!(pool.cached_count(), 0);
}

#[test]
fn a_staging_class_is_stocked_on_first_use() {
    let mut gpu = noop_gpu();
    let mut pools = StagingPoolMap::new(2);
    assert_eq!(pools.cached_count(), 0);
    let a = pools.acquire(&mut gpu, 100);
    assert_eq!(a.size(), 128);
    assert_eq!(
        a.usage(),
        wgpu::BufferUsages::MAP_READ | wgpu::BufferUsages::COPY_DST
    );
    assert_eq!(pools.cached_count(), 2);
    let b = pools.acquire(&mut gpu, 100);
    let c = pools.acquire(&mut gpu, 100);
    assert_eq!(pools.cached_count(), 0);
    let d = pools.acquire(&mut gpu, 100);
    assert_eq!(pools.cached_count(), 0);
    assert_ne!(a, d);
    pools.release(a);
    let last = b.clone();
    pools.release(b);
    pools.release(c);
    pools.release(d);
    assert_eq!(pools.cached_count(), 2);
    assert_eq!(pools.acquire(&mut gpu, 128), last);
}

#[test]
fn a_stranger_is_not_kept() {
    let mut gpu = noop_gpu();
    let mut known = StagingPoolMap::new(1);
    let mut other = StagingPoolMap::new(1);
    let buffer = known.acquire(&mut gpu, 64);
    other.release(buffer);
    assert_eq!(other.cached_count(), 0);
    assert_eq!(known.cached_count(), 1);
}
