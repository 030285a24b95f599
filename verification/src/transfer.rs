//! Transfers between the memory of the CPU and that of the GPU.
use vstd::prelude::*;

use crate::allocator::WgpuAllocator;
use crate::bytes::{bytes_of, decode, encode, law_encoding_is_faithful, Plain};
use crate::error::WgpuError;
use crate::gpu::{
    buffer_info, copy_buffer_to_buffer, create_command_encoder, finish, map_for_reading,
    overwrite, read_mapped, submit, unmap, write_buffer, zeros,
};
use crate::gpu_res::{GpuImage, GpuTensor};
use crate::host::{computable, product, product_of, row_major, Image, ImageSize, ShapeError, Tensor};
use crate::ops::tensor::GpuElement;
use crate::pixel::GpuPixel;
use crate::pool::{
    after_release, after_reuse, compute_use, is_power_of_two, kept, lemma_class_covers, lemma_new_class,
    lemma_restock, lemma_reuse, lemma_stock_unaffected, size_class, staging_use, MAX_CLASS,
};
use crate::session::{
    law_allocations_reach_the_limit, lemma_class_bounded, lemma_class_fits, lemma_stores_known,
    STAGING_BUFFERS_PER_CLASS, WgpuSession,
};

verus! {

/// `wgpu` requires all buffer copy sizes and offsets to be a multiple of 4.
pub const COPY_ALIGNMENT: u64 = 4;

/// The smallest multiple of [`COPY_ALIGNMENT`] that is at least `n`.
pub open spec fn aligned(n: nat) -> nat {
    (n + 3) / 4 * 4
}

/// An aligned size is a multiple of the alignment, large enough, and no smaller multiple is.
#[verifier::spinoff_prover]
pub proof fn law_aligned_is_the_smallest_multiple(n: nat, other: nat)
    requires
        other % 4 == 0,
        other >= n,
    ensures
        aligned(n) % 4 == 0,
        n <= aligned(n) < n + COPY_ALIGNMENT,
        aligned(n) <= other,
        aligned(aligned(n)) == aligned(n),
{
    let q = (n + 3) / 4;
    let r = other / 4;
    assert(other == 4 * r);
    assert(q <= r);
    assert((4 * q + 3) / 4 == q);
}

/// Rounds a size up to a multiple of the alignment.
pub fn align_up(n: u64) -> (aligned_size: u64)
    requires
        n <= u64::MAX - 3,
    ensures
        aligned_size == aligned(n as nat),
{
    let m: u64 = n + (COPY_ALIGNMENT - 1);
    assert(m & !3u64 == m / 4 * 4) by (bit_vector);
    m & !(COPY_ALIGNMENT - 1)
}

impl WgpuSession {
    /// The image is in use in this session, with room for all its bytes.
    pub open spec fn holds_image<T: Plain, const C: usize>(self, image: GpuImage<T, C>) -> bool {
        &&& self.holds(image.memory())
        &&& image.dims().countable(C)
        &&& image.byte_len() == image.dims().numel(C) * T::BYTES
        &&& aligned(image.byte_len()) <= buffer_info(image.memory()).size
    }

    /// The bytes of an image.
    pub open spec fn image_bytes<T, const C: usize>(self, image: GpuImage<T, C>) -> Seq<u8> {
        self.memory()[buffer_info(image.memory()).id].take(image.byte_len() as int)
    }

    /// The tensor is in use in this session, with room for all its bytes.
    pub open spec fn holds_tensor<T: Plain, const N: usize>(self, tensor: GpuTensor<T, N>) -> bool {
        &&& self.holds(tensor.memory())
        &&& computable(tensor.dims())
        &&& tensor.byte_len() == product(tensor.dims()) * T::BYTES
        &&& tensor.byte_len() <= buffer_info(tensor.memory()).size
    }

    /// The bytes of a tensor.
    pub open spec fn tensor_bytes<T, const N: usize>(self, tensor: GpuTensor<T, N>) -> Seq<u8> {
        self.memory()[buffer_info(tensor.memory()).id].take(tensor.byte_len() as int)
    }

    /// Behind the first `n` bytes a buffer that was taken from the pool holds what it held before: its
    /// old bytes where the pool kept it, and zeros where it is new.
    pub open spec fn untouched_behind(
        self,
        before: WgpuSession,
        buffer: wgpu::Buffer,
        n: nat,
    ) -> bool {
        let info = buffer_info(buffer);
        self.memory()[info.id].skip(n as int) == if kept(before.compute_pool@, info.size).len() > 0 {
            before.memory()[info.id].skip(n as int)
        } else {
            zeros((info.size - n) as nat)
        }
    }

    /// A staging buffer of the class was taken, and given back or not. One that the pool kept goes
    /// back where it was, and nothing is created. A class that was empty keeps the buffer that was
    /// created for it. A class that was never asked for is fully stocked, and the buffer created on
    /// top of that is one too many to be kept.
    pub open spec fn staged(self, before: WgpuSession, class: u64, given_back: bool) -> bool {
        let was = kept(before.staging_pool@, class);
        let is = kept(self.staging_pool@, class);
        &&& self.staging_pool@ == before.staging_pool@.insert(class, is)
        &&& if was.len() > 0 {
            &&& is == if given_back {
                was
            } else {
                was.drop_last()
            }
            &&& self.memory().dom() == before.memory().dom()
        } else if before.staging_pool@.contains_key(class) {
            is.len() == if given_back {
                1nat
            } else {
                0nat
            }
        } else {
            is.len() == STAGING_BUFFERS_PER_CLASS
        }
    }

    /// Reads the first `size` bytes of a compute buffer back: copies them to a staging buffer,
    /// maps that, and gives it back to its pool. Where the mapping fails, the staging buffer is
    /// dropped.
    #[verifier::spinoff_prover]
    pub fn read_back(&mut self, buffer: &wgpu::Buffer, size: u64, label: Option<&str>) -> (outcome:
        Result<Vec<u8>, WgpuError>)
        requires
            old(self).wf(),
            old(self).holds(*buffer),
            size % 4 == 0,
            0 < size <= buffer_info(*buffer).size,
            old(self).can_allocate(size as nat),
        ensures
            final(self).wf(),
            final(self).carries(*old(self)),
            final(self).compute_pool == old(self).compute_pool,
            final(self).same_work(*old(self)),
            final(self).staged(*old(self), size_class(size as nat) as u64, outcome is Ok),
            match outcome {
                Ok(bytes) => {
                    &&& bytes@ == old(self).memory()[buffer_info(*buffer).id].take(size as int)
                    &&& final(self).gpu().mapped() == old(self).gpu().mapped()
                },
                Err(error) => error is MapFailed,
            },
    {
        let ghost class = size_class(size as nat) as u64;
        let ghost source = buffer_info(*buffer).id;
        proof {
            lemma_class_fits(size);
        }
        let staging = self.staging_pool.acquire(&mut self.device.gpu, size);
        let ghost target = buffer_info(staging).id;
        let ghost acquired = *self;
        proof {
            lemma_staging_acquired(*old(self), acquired, staging, class);
            acquired.lemma_carried(*old(self), *buffer);
        }
        let mut encoder = create_command_encoder(&self.device.gpu, label);
        copy_buffer_to_buffer(&mut encoder, buffer, &staging, size);
        let receipt = submit(&mut self.device.gpu, finish(encoder));
        assert(self.memory() == acquired.memory().insert(
            target,
            overwrite(acquired.memory()[target], acquired.memory()[source].take(size as int)),
        ));
        assert(self.memory().dom() =~= acquired.memory().dom());
        let outcome = map_for_reading(&mut self.device.gpu, &staging, size, receipt);
        if let Err(error) = outcome {
            proof {
                lemma_one_buffer_touched(acquired, *self, target);
                assert(self.staging_pool@ =~= old(self).staging_pool@.insert(
                    class,
                    kept(self.staging_pool@, class),
                ));
            }
            return Err(WgpuError::MapFailed(error));
        }
        let bytes = read_mapped(&self.device.gpu, &staging, size);
        assert(bytes@ =~= old(self).memory()[source].take(size as int));
        unmap(&mut self.device.gpu, &staging);
        proof {
            lemma_one_buffer_touched(acquired, *self, target);
        }
        let ghost unmapped = *self;
        self.staging_pool.release(staging);
        proof {
            lemma_staging_released(unmapped, *self, staging);
            assert(self.gpu().mapped() =~= old(self).gpu().mapped());
            assert(self.staging_pool@ =~= old(self).staging_pool@.insert(
                class,
                kept(self.staging_pool@, class),
            ));
            if kept(old(self).staging_pool@, class).len() > 0 {
                assert(kept(acquired.staging_pool@, class).push(staging)
                    =~= kept(old(self).staging_pool@, class));
                old(self).staging_pool.lemma_wf();
            }
        }
        Ok(bytes)
    }
}

/// Taking a staging buffer leaves everything that is in use as it is.
proof fn lemma_staging_acquired(
    before: WgpuSession,
    after: WgpuSession,
    staging: wgpu::Buffer,
    class: u64,
)
    requires
        before.wf(),
        after.compute_pool == before.compute_pool,
        after.device.limits == before.device.limits,
        after.device.features == before.device.features,
        after.device.workgroup_size == before.device.workgroup_size,
        after.device.pipeline_cache == before.device.pipeline_cache,
        after.parameters == before.parameters,
        after.staging_pool.wf(),
        after.staging_pool.count_per_class() == before.staging_pool.count_per_class(),
        ({
            let bucket = kept(before.staging_pool@, class);
            if bucket.len() > 0 {
                &&& staging == bucket.last()
                &&& after.staging_pool@ == after_reuse(before.staging_pool@, class)
                &&& after.gpu() == before.gpu()
            } else if before.staging_pool@.contains_key(class) {
                &&& after.staging_pool@ == before.staging_pool@
                &&& after.gpu().grown(before.gpu(), seq![staging], class, staging_use())
            } else {
                &&& after.staging_pool@ == before.staging_pool@.insert(
                    class,
                    kept(after.staging_pool@, class),
                )
                &&& after.gpu().grown(
                    before.gpu(),
                    kept(after.staging_pool@, class).push(staging),
                    class,
                    staging_use(),
                )
            }
        }),
    ensures
        after.wf(),
        after.carries(before),
        after.gpu().usable(staging),
        after.live(buffer_info(staging).id),
        !before.live(buffer_info(staging).id),
        buffer_info(staging).size == class,
        buffer_info(staging).usage == staging_use(),
        after.gpu().dispatched() == before.gpu().dispatched(),
        after.gpu().compiled() == before.gpu().compiled(),
{
    let usage = staging_use();
    let stock = before.staging_pool@;
    after.lemma_keeps_own(before);
    lemma_stores_known(stock, before.gpu(), usage);
    lemma_stores_known(before.compute_pool@, before.gpu(), compute_use());
    if kept(stock, class).len() > 0 {
        lemma_reuse(stock, before.gpu(), usage, class);
    } else {
        lemma_stock_unaffected(before.compute_pool@, before.gpu(), after.gpu(), compute_use());
        if stock.contains_key(class) {
            assert(seq![staging][0] == staging);
            lemma_stock_unaffected(stock, before.gpu(), after.gpu(), usage);
        } else {
            let bucket = kept(after.staging_pool@, class);
            assert(bucket.push(staging) =~= bucket + seq![staging]);
            assert(bucket.push(staging)[bucket.len() as int] == staging);
            assert(seq![staging][0] == staging);
            lemma_new_class(stock, before.gpu(), after.gpu(), usage, class, bucket, seq![staging]);
        }
    }
}

/// Work that creates, maps and resizes nothing leaves a session in order.
pub proof fn lemma_lengths_kept(before: WgpuSession, after: WgpuSession)
    requires
        before.sound(),
        after.same_keep(before),
        after.gpu().mapped() == before.gpu().mapped(),
        after.memory().dom() == before.memory().dom(),
        forall|id: nat| #[trigger]
            before.memory().contains_key(id) ==> after.memory()[id].len()
                == before.memory()[id].len(),
    ensures
        after.sound(),
        before.keeps_own() ==> after.keeps_own(),
        forall|id: nat| #[trigger] before.live(id) ==> after.live(id),
{
    after.lemma_keeps_own(before);
    lemma_stores_known(before.staging_pool@, before.gpu(), staging_use());
    lemma_stores_known(before.compute_pool@, before.gpu(), compute_use());
    lemma_stock_unaffected(before.compute_pool@, before.gpu(), after.gpu(), compute_use());
    lemma_stock_unaffected(before.staging_pool@, before.gpu(), after.gpu(), staging_use());
}

/// Work on one buffer that no pool keeps leaves all others as they are.
pub proof fn lemma_one_buffer_touched(before: WgpuSession, after: WgpuSession, id: nat)
    requires
        before.wf(),
        before.live(id),
        after.same_keep(before),
        after.memory().dom() == before.memory().dom(),
        after.memory()[id].len() == before.memory()[id].len(),
        forall|other: nat|
            other != id ==> #[trigger] after.memory()[other] == before.memory()[other],
        forall|other: nat|
            other != id ==> (#[trigger] after.gpu().mapped().contains_key(other)
                <==> before.gpu().mapped().contains_key(other)),
    ensures
        after.wf(),
        forall|other: nat| #[trigger] before.live(other) ==> after.live(other),
{
    after.lemma_keeps_own(before);
    lemma_stores_known(before.staging_pool@, before.gpu(), staging_use());
    lemma_stores_known(before.compute_pool@, before.gpu(), compute_use());
    lemma_stock_unaffected(before.compute_pool@, before.gpu(), after.gpu(), compute_use());
    lemma_stock_unaffected(before.staging_pool@, before.gpu(), after.gpu(), staging_use());
}

/// Giving a staging buffer back leaves everything else that is in use as it is.
proof fn lemma_staging_released(before: WgpuSession, after: WgpuSession, staging: wgpu::Buffer)
    requires
        before.wf(),
        before.gpu().usable(staging),
        before.live(buffer_info(staging).id),
        buffer_info(staging).usage == staging_use(),
        after.device == before.device,
        after.parameters == before.parameters,
        after.compute_pool == before.compute_pool,
        after.staging_pool.wf(),
        after.staging_pool.count_per_class() == before.staging_pool.count_per_class(),
        after.staging_pool@ == before.staging_pool@ || after.staging_pool@
            == before.staging_pool@.insert(
            buffer_info(staging).size,
            kept(before.staging_pool@, buffer_info(staging).size).push(staging),
        ),
    ensures
        after.wf(),
        forall|id: nat| #[trigger]
            before.live(id) && id != buffer_info(staging).id ==> after.live(id),
{
    after.lemma_keeps_own(before);
    lemma_restock(before.staging_pool@, before.gpu(), staging_use(), staging);
}

// ── Images ───────────────────────────────────────────────────────────────────

/// The bytes of an image can be counted.
pub open spec fn byte_countable<T: Plain>(size: ImageSize, channels: usize) -> bool {
    &&& size.countable(channels)
    &&& size.numel(channels) * T::BYTES <= usize::MAX
}

/// The number of bytes of an image, where it can be counted.
pub fn checked_len<T: Plain>(size: ImageSize, channels: usize) -> (len: Option<usize>)
    ensures
        len is Some <==> byte_countable::<T>(size, channels),
        len matches Some(n) ==> n == size.numel(channels) * T::BYTES,
{
    if size.width.checked_mul(channels).is_none() {
        return None;
    }
    match size.width.checked_mul(size.height) {
        None => None,
        Some(pixels) => match pixels.checked_mul(channels) {
            None => None,
            Some(numel) => numel.checked_mul(T::BYTES),
        },
    }
}

/// Wrap a `WgpuAllocator` into a `GpuImage` of the given size.
pub fn wrap_gpu_buffer<T: GpuPixel, const C: usize>(size: ImageSize, alloc: WgpuAllocator) -> (outcome:
    Result<GpuImage<T, C>, WgpuError>)
    requires
        byte_countable::<T>(size, C),
    ensures
        outcome matches Ok(image) && {
            &&& image.dims() == size
            &&& image.extents() == seq![size.height, size.width, C]
            &&& image.steps() == seq![(size.width * C) as usize, C, 1usize]
            &&& image.byte_len() == size.numel(C) * T::BYTES
            &&& image.memory() == alloc.memory()
        },
{
    let numel: usize = size.count(C);
    Ok(GpuImage::wrap(size, numel * T::BYTES, alloc))
}

/// The bytes of the data with zeros behind them up to a multiple of the alignment.
pub open spec fn padded(bytes: Seq<u8>) -> Seq<u8> {
    bytes + zeros((aligned(bytes.len()) - bytes.len()) as nat)
}

impl WgpuSession {
    /// An image of the given size can be uploaded: its bytes can be counted, and a buffer for them
    /// can be had.
    pub open spec fn can_upload<T: Plain>(self, size: ImageSize, channels: usize) -> bool {
        let padded_size = aligned(size.numel(channels) * T::BYTES as nat);
        &&& byte_countable::<T>(size, channels)
        &&& padded_size <= usize::MAX
        &&& self.can_allocate(padded_size)
    }

    /// Whether an image of the given size can be uploaded.
    pub fn allows_upload<T: Plain>(&self, size: ImageSize, channels: usize) -> (allowed: bool)
        ensures
            allowed == self.can_upload::<T>(size, channels),
    {
        match checked_len::<T>(size, channels) {
            None => false,
            Some(n) => {
                if n as u64 > MAX_CLASS {
                    return false;
                }
                let padded_size: u64 = align_up(n as u64);
                padded_size <= usize::MAX as u64 && self.allows_buffer(padded_size)
            },
        }
    }

    /// An image of this session can be downloaded: it has bytes, and a staging buffer for them can
    /// be had.
    pub open spec fn can_download<T, const C: usize>(self, image: GpuImage<T, C>) -> bool {
        image.byte_len() > 0 && self.can_allocate(aligned(image.byte_len()))
    }

    /// Whether an image of this session can be downloaded.
    pub fn allows_download<T, const C: usize>(&self, image: &GpuImage<T, C>) -> (allowed: bool)
        ensures
            allowed == self.can_download(*image),
    {
        let n: u64 = image.len() as u64;
        0 < n && n <= MAX_CLASS && self.allows_buffer(align_up(n))
    }
}

/// Upload a CPU image to the GPU via the compute pool.
#[verifier::spinoff_prover]
pub fn image_to_gpu<T: GpuPixel, const C: usize>(
    session: &mut WgpuSession,
    cpu_image: &Image<T, C>,
) -> (outcome: Result<GpuImage<T, C>, WgpuError>)
    requires
        old(session).wf(),
        old(session).can_upload::<T>(cpu_image.dims(), C),
    ensures
        final(session).wf(),
        final(session).carries(*old(session)),
        final(session).staging_pool == old(session).staging_pool,
        final(session).same_work(*old(session)),
        final(session).gpu().mapped() == old(session).gpu().mapped(),
        outcome matches Ok(image) && {
            let id = buffer_info(image.memory()).id;
            &&& image.dims() == cpu_image.dims()
            &&& final(session).holds_image(image)
            &&& !old(session).live(id)
            &&& final(session).image_bytes(image) == bytes_of(cpu_image.pixels())
            &&& final(session).memory()[id].take(aligned(image.byte_len()) as int) == padded(
                bytes_of(cpu_image.pixels()),
            )
            &&& final(session).untouched_behind(
                *old(session),
                image.memory(),
                aligned(image.byte_len()),
            )
            &&& buffer_info(image.memory()).size == size_class(aligned(image.byte_len()))
            &&& final(session).took_from_pool(*old(session), image.memory())
        },
{
    let size: ImageSize = cpu_image.size();
    let byte_size: u64 = (size.count(C) * T::BYTES) as u64;
    proof {
        lemma_class_covers(aligned(byte_size as nat));
    }
    let write_size: u64 = align_up(byte_size);
    proof {
        lemma_class_fits(write_size);
    }
    let alloc = session.acquire_compute(write_size);
    let ghost acquired = *session;
    let mut raw: Vec<u8> = encode(cpu_image.as_slice());
    let ghost bytes = raw@;
    if write_size != byte_size {
        raw.resize(write_size as usize, 0u8);
    }
    assert(raw@ =~= padded(bytes));
    write_buffer(&mut session.device.gpu, alloc.gpu_buffer(), raw.as_slice());
    proof {
        let id = buffer_info(alloc.memory()).id;
        assert(session.memory().dom() =~= acquired.memory().dom());
        lemma_one_buffer_touched(acquired, *session, id);
        assert(session.memory()[id].take(write_size as int) =~= padded(bytes));
        assert(session.memory()[id].take(byte_size as int) =~= bytes);
        assert(session.memory()[id].skip(write_size as int) =~= acquired.memory()[id].skip(
            write_size as int,
        ));
        assert(zeros(buffer_info(alloc.memory()).size as nat).skip(write_size as int) =~= zeros(
            (buffer_info(alloc.memory()).size - write_size) as nat,
        ));
        assert(session.untouched_behind(*old(session), alloc.memory(), write_size as nat));
    }
    wrap_gpu_buffer(size, alloc)
}

/// The number of elements is determined by that of the bytes.
proof fn lemma_element_count<T: Plain>(data: Seq<T>, n: nat)
    requires
        bytes_of(data).len() == n * T::BYTES,
    ensures
        data.len() == n,
{
    T::lemma_positive();
    let b = T::BYTES as nat;
    assert(bytes_of(data).len() == data.len() * b);
    assert(data.len() == n) by (nonlinear_arith)
        requires
            data.len() * b == n * b,
            b > 0,
    ;
}

/// The elements of the first `numel * T::BYTES` bytes.
fn decode_front<T: Plain>(bytes: Vec<u8>, numel: usize) -> (data: Vec<T>)
    requires
        numel * T::BYTES <= bytes@.len(),
    ensures
        bytes_of(data@) == bytes@.take((numel * T::BYTES) as int),
        data@.len() == numel,
{
    let mut bytes = bytes;
    let ghost all = bytes@;
    assert(bytes@.len() == bytes.len());
    bytes.truncate(numel * T::BYTES);
    assert(bytes@ =~= all.take((numel * T::BYTES) as int));
    proof {
        T::lemma_positive();
        vstd::arithmetic::div_mod::lemma_mod_multiples_basic(numel as int, T::BYTES as int);
    }
    let data: Vec<T> = decode(bytes.as_slice());
    proof {
        lemma_element_count(data@, numel as nat);
    }
    data
}

/// The image of the given size whose components have the given bytes; any bytes behind those are
/// left out.
pub fn decode_image<T: GpuPixel, const C: usize>(size: ImageSize, bytes: Vec<u8>) -> (outcome:
    Result<Image<T, C>, WgpuError>)
    requires
        size.countable(C),
        size.numel(C) * T::BYTES <= bytes@.len(),
    ensures
        outcome matches Ok(image) && {
            &&& image.dims() == size
            &&& bytes_of(image.pixels()) == bytes@.take((size.numel(C) * T::BYTES) as int)
        },
{
    let data: Vec<T> = decode_front(bytes, size.count(C));
    Image::new(size, data)
}

/// Download a GPU image to CPU RAM via the staging pool.
#[verifier::spinoff_prover]
pub fn image_to_cpu<T: GpuPixel, const C: usize>(
    session: &mut WgpuSession,
    gpu_image: &GpuImage<T, C>,
) -> (outcome: Result<Image<T, C>, WgpuError>)
    requires
        old(session).wf(),
        old(session).holds_image(*gpu_image),
        old(session).can_download(*gpu_image),
    ensures
        final(session).wf(),
        final(session).carries(*old(session)),
        final(session).holds_image(*gpu_image),
        final(session).image_bytes(*gpu_image) == old(session).image_bytes(*gpu_image),
        final(session).compute_pool == old(session).compute_pool,
        final(session).same_work(*old(session)),
        final(session).staged(
            *old(session),
            size_class(aligned(gpu_image.byte_len())) as u64,
            outcome is Ok,
        ),
        match outcome {
            Ok(image) => {
                &&& image.dims() == gpu_image.dims()
                &&& bytes_of(image.pixels()) == old(session).image_bytes(*gpu_image)
            },
            Err(error) => error is MapFailed,
        },
{
    let size: ImageSize = gpu_image.size();
    let byte_size: u64 = gpu_image.len() as u64;
    proof {
        lemma_class_bounded(buffer_info(gpu_image.memory()).size);
        lemma_class_covers(aligned(gpu_image.byte_len()));
    }
    let copy_size: u64 = align_up(byte_size);
    let outcome = session.read_back(
        gpu_image.allocator().gpu_buffer(),
        copy_size,
        Some("img-download"),
    );
    proof {
        session.lemma_carried(*old(session), gpu_image.memory());
    }
    match outcome {
        Ok(bytes) => {
            assert(bytes@.take(byte_size as int) =~= old(session).image_bytes(*gpu_image));
            decode_image(size, bytes)
        },
        Err(error) => Err(error),
    }
}

/// The buffer that holds an image.
pub fn src_buffer<T, const C: usize>(image: &GpuImage<T, C>) -> (buffer: &wgpu::Buffer)
    ensures
        *buffer == image.memory(),
{
    image.allocator().gpu_buffer()
}

/// The buffer that holds a tensor.
pub fn src_buffer_tensor<T, const N: usize>(tensor: &GpuTensor<T, N>) -> (buffer: &wgpu::Buffer)
    ensures
        *buffer == tensor.memory(),
{
    tensor.allocator().gpu_buffer()
}

/// Acquire a pooled output allocator for an op.
pub fn acquire_output(session: &mut WgpuSession, byte_size: u64) -> (alloc: WgpuAllocator)
    requires
        old(session).wf(),
        old(session).can_allocate(byte_size as nat),
    ensures
        final(session).wf(),
        final(session).carries(*old(session)),
        final(session).holds(alloc.memory()),
        !old(session).live(buffer_info(alloc.memory()).id),
        buffer_info(alloc.memory()).size == size_class(byte_size as nat),
        final(session).staging_pool == old(session).staging_pool,
        final(session).same_work(*old(session)),
        final(session).gpu().mapped() == old(session).gpu().mapped(),
        final(session).took_from_pool(*old(session), alloc.memory()),
{
    session.acquire_compute(byte_size)
}

/// Wrap a `WgpuAllocator` into a `GpuTensor`.
pub fn wrap_gpu_tensor<T: Plain, const N: usize>(
    shape: [usize; N],
    strides: [usize; N],
    alloc: WgpuAllocator,
) -> (outcome: Result<GpuTensor<T, N>, WgpuError>)
    requires
        computable(shape@),
        product(shape@) * T::BYTES <= usize::MAX,
    ensures
        outcome matches Ok(tensor) && {
            &&& tensor.dims() == shape@
            &&& tensor.steps() == strides@
            &&& tensor.byte_len() == product(shape@) * T::BYTES
            &&& tensor.memory() == alloc.memory()
        },
{
    let numel: usize = product_of(shape.as_slice());
    Ok(GpuTensor::wrap(shape, strides, numel * T::BYTES, alloc))
}

// ── Tensors ──────────────────────────────────────────────────────────────────

/// The tensor of the given shape whose elements have the given bytes.
pub fn decode_tensor<T: GpuElement, const N: usize>(shape: [usize; N], bytes: Vec<u8>) -> (outcome:
    Result<Tensor<T, N>, WgpuError>)
    requires
        computable(shape@),
        product(shape@) * T::BYTES == bytes@.len(),
    ensures
        outcome matches Ok(tensor) && {
            &&& tensor.dims() == shape@
            &&& bytes_of(tensor.elements()) == bytes@
            &&& forall|i: int|
                0 <= i < N ==> #[trigger] tensor.steps()[i] == row_major(shape@)[i]
        },
{
    let numel: usize = product_of(shape.as_slice());
    assert(bytes@.take((numel * T::BYTES) as int) =~= bytes@);
    let data: Vec<T> = decode_front(bytes, numel);
    match Tensor::from_shape_vec(shape, data) {
        Ok(tensor) => Ok(tensor),
        Err(ShapeError::InvalidShape(expected)) => Err(
            WgpuError::SizeMismatch { expected, got: numel },
        ),
    }
}

impl WgpuSession {
    /// A tensor of the given shape can be uploaded: its bytes can be counted, and a buffer for them
    /// can be had.
    pub open spec fn can_upload_tensor<T: Plain>(self, shape: Seq<usize>) -> bool {
        let n = product(shape) * T::BYTES as nat;
        n <= usize::MAX && self.can_allocate(n)
    }

    /// Whether a tensor can be uploaded.
    pub fn allows_upload_tensor<T: GpuElement, const N: usize>(&self, src: &Tensor<T, N>) -> (allowed:
        bool)
        ensures
            allowed == self.can_upload_tensor::<T>(src.dims()),
    {
        let numel: usize = product_of(src.shape().as_slice());
        match numel.checked_mul(T::BYTES) {
            None => false,
            Some(n) => self.allows_buffer(n as u64),
        }
    }

    /// A tensor of this session can be downloaded: it has bytes, and a staging buffer for them can
    /// be had.
    pub open spec fn can_download_tensor<T, const N: usize>(self, tensor: GpuTensor<T, N>) -> bool {
        tensor.byte_len() > 0 && self.can_allocate(tensor.byte_len())
    }

    /// Whether a tensor of this session can be downloaded.
    pub fn allows_download_tensor<T, const N: usize>(&self, tensor: &GpuTensor<T, N>) -> (allowed:
        bool)
        ensures
            allowed == self.can_download_tensor(*tensor),
    {
        let n: u64 = tensor.len() as u64;
        0 < n && self.allows_buffer(n)
    }

    /// Upload a CPU tensor to the GPU via the compute pool.
    #[verifier::spinoff_prover]
    pub fn upload_tensor<T: GpuElement, const N: usize>(&mut self, src: &Tensor<T, N>) -> (outcome:
        Result<GpuTensor<T, N>, WgpuError>)
        requires
            old(self).wf(),
            old(self).can_upload_tensor::<T>(src.dims()),
        ensures
            final(self).wf(),
            final(self).carries(*old(self)),
            final(self).staging_pool == old(self).staging_pool,
            final(self).same_work(*old(self)),
            final(self).gpu().mapped() == old(self).gpu().mapped(),
            outcome matches Ok(tensor) && {
                &&& tensor.dims() == src.dims()
                &&& tensor.steps() == src.steps()
                &&& final(self).holds_tensor(tensor)
                &&& !old(self).live(buffer_info(tensor.memory()).id)
                &&& final(self).tensor_bytes(tensor) == bytes_of(src.elements())
                &&& final(self).untouched_behind(*old(self), tensor.memory(), tensor.byte_len())
                &&& buffer_info(tensor.memory()).size == size_class(tensor.byte_len())
                &&& final(self).took_from_pool(*old(self), tensor.memory())
            },
    {
        let shape: &[usize; N] = src.shape();
        let numel: usize = product_of(shape.as_slice());
        let byte_size: u64 = (numel * T::BYTES) as u64;
        proof {
            T::lemma_size();
            lemma_class_fits(byte_size);
        }
        let alloc = self.acquire_compute(byte_size);
        let ghost acquired = *self;
        let bytes: Vec<u8> = encode(src.as_slice());
        write_buffer(&mut self.device.gpu, alloc.gpu_buffer(), bytes.as_slice());
        proof {
            let id = buffer_info(alloc.memory()).id;
            assert(self.memory().dom() =~= acquired.memory().dom());
            lemma_one_buffer_touched(acquired, *self, id);
            assert(self.memory()[id].take(byte_size as int) =~= bytes@);
            assert(self.memory()[id].skip(byte_size as int) =~= acquired.memory()[id].skip(
                byte_size as int,
            ));
            assert(zeros(buffer_info(alloc.memory()).size as nat).skip(byte_size as int) =~= zeros(
                (buffer_info(alloc.memory()).size - byte_size) as nat,
            ));
            assert(self.untouched_behind(*old(self), alloc.memory(), byte_size as nat));
        }
        wrap_gpu_tensor(*shape, *src.strides(), alloc)
    }

    /// Download a GPU tensor to the CPU via the staging pool.
    #[verifier::spinoff_prover]
    pub fn download_tensor<T: GpuElement, const N: usize>(&mut self, src: &GpuTensor<T, N>) -> (outcome:
        Result<Tensor<T, N>, WgpuError>)
        requires
            old(self).wf(),
            old(self).holds_tensor(*src),
            old(self).can_download_tensor(*src),
        ensures
            final(self).wf(),
            final(self).carries(*old(self)),
            final(self).holds_tensor(*src),
            final(self).tensor_bytes(*src) == old(self).tensor_bytes(*src),
            final(self).compute_pool == old(self).compute_pool,
            final(self).same_work(*old(self)),
            final(self).staged(*old(self), size_class(src.byte_len()) as u64, outcome is Ok),
            match outcome {
                Ok(tensor) => {
                    &&& tensor.dims() == src.dims()
                    &&& bytes_of(tensor.elements()) == old(self).tensor_bytes(*src)
                    &&& forall|i: int|
                        0 <= i < N ==> #[trigger] tensor.steps()[i] == row_major(src.dims())[i]
                },
                Err(error) => error is MapFailed,
            },
    {
        let shape: &[usize; N] = src.shape();
        let byte_size: u64 = src.len() as u64;
        proof {
            T::lemma_size();
        }
        let outcome = self.read_back(src_buffer_tensor(src), byte_size, None);
        proof {
            self.lemma_carried(*old(self), src.memory());
        }
        match outcome {
            Ok(bytes) => decode_tensor(*shape, bytes),
            Err(error) => Err(error),
        }
    }

    /// Gives an image up: its buffer goes back to the compute pool.
    pub fn release_image<T, const C: usize>(&mut self, image: GpuImage<T, C>)
        requires
            old(self).wf(),
            old(self).holds(image.memory()),
        ensures
            final(self).wf(),
            final(self).device == old(self).device,
            final(self).staging_pool == old(self).staging_pool,
            final(self).parameters == old(self).parameters,
            final(self).compute_pool@ == after_release(
                old(self).compute_pool@,
                old(self).compute_pool.max_per_class(),
                image.memory(),
            ),
            forall|id: nat| #[trigger]
                old(self).live(id) && id != buffer_info(image.memory()).id
                    ==> final(self).live(id),
    {
        self.release(image.into_alloc())
    }

    /// Gives a tensor up: its buffer goes back to the compute pool.
    pub fn release_tensor<T, const N: usize>(&mut self, tensor: GpuTensor<T, N>)
        requires
            old(self).wf(),
            old(self).holds(tensor.memory()),
        ensures
            final(self).wf(),
            final(self).device == old(self).device,
            final(self).staging_pool == old(self).staging_pool,
            final(self).parameters == old(self).parameters,
            final(self).compute_pool@ == after_release(
                old(self).compute_pool@,
                old(self).compute_pool.max_per_class(),
                tensor.memory(),
            ),
            forall|id: nat| #[trigger]
                old(self).live(id) && id != buffer_info(tensor.memory()).id
                    ==> final(self).live(id),
    {
        self.release(tensor.into_alloc())
    }
}

// ── Laws ─────────────────────────────────────────────────────────────────────

/// A round trip preserves the pixels: whatever was done or released in between, as long as the image
/// was kept, what is downloaded is what was uploaded.
pub proof fn law_round_trip_preserves_pixels<T: GpuPixel, const C: usize>(
    uploaded: WgpuSession,
    later: WgpuSession,
    image: GpuImage<T, C>,
    pixels: Seq<T>,
    downloaded: Seq<T>,
)
    requires
        uploaded.holds_image(image),
        uploaded.image_bytes(image) == bytes_of(pixels),
        later.keeps(uploaded, image.memory()),
        bytes_of(downloaded) == later.image_bytes(image),
    ensures
        later.holds_image(image),
        downloaded == pixels,
{
    law_encoding_is_faithful(downloaded, pixels);
}

/// A round trip preserves the elements: whatever was done or released in between, as long as the
/// tensor was kept, what is downloaded is what was uploaded.
pub proof fn law_round_trip_preserves_elements<T: GpuElement, const N: usize>(
    uploaded: WgpuSession,
    later: WgpuSession,
    tensor: GpuTensor<T, N>,
    elements: Seq<T>,
    downloaded: Seq<T>,
)
    requires
        uploaded.holds_tensor(tensor),
        uploaded.tensor_bytes(tensor) == bytes_of(elements),
        later.keeps(uploaded, tensor.memory()),
        bytes_of(downloaded) == later.tensor_bytes(tensor),
    ensures
        later.holds_tensor(tensor),
        downloaded == elements,
{
    law_encoding_is_faithful(downloaded, elements);
}

/// What is uploaded is the data and then zeros up to the next multiple of the alignment: the length
/// is one that `wgpu` writes, and the data is all there.
pub proof fn law_padding_is_aligned(bytes: Seq<u8>)
    ensures
        padded(bytes).len() == aligned(bytes.len()),
        padded(bytes).len() % 4 == 0,
        padded(bytes).take(bytes.len() as int) == bytes,
        bytes.len() % 4 == 0 ==> padded(bytes) == bytes,
        padded(bytes).len() < bytes.len() + 4,
        forall|i: int|
            bytes.len() <= i < padded(bytes).len() ==> #[trigger] padded(bytes)[i] == 0,
{
    law_aligned_is_the_smallest_multiple(bytes.len(), aligned(bytes.len()));
    assert(padded(bytes).take(bytes.len() as int) =~= bytes);
    if bytes.len() % 4 == 0 {
        assert(padded(bytes) =~= bytes);
    }
}

/// A staging buffer is used again: once bytes were read back, reading as many back again creates no buffer,
/// and leaves the staging pool as it is.
pub proof fn law_second_read_back_creates_nothing(
    before: WgpuSession,
    first: WgpuSession,
    second: WgpuSession,
    class: u64,
)
    requires
        first.staged(before, class, true),
        second.staged(first, class, true),
    ensures
        second.memory().dom() == first.memory().dom(),
        second.staging_pool@ == first.staging_pool@,
{
    assert(second.staging_pool@ =~= first.staging_pool@);
}

/// An image can be uploaded, and one that has pixels downloaded, wherever a power of two that is large enough
/// for its bytes, and for up to three more, is within what the device allows.
pub proof fn law_images_are_transferable_within_the_limit<T: GpuPixel, const C: usize>(
    session: WgpuSession,
    size: ImageSize,
    image: GpuImage<T, C>,
    class: nat,
)
    requires
        size.width * size.height <= usize::MAX,
        size.width * C <= usize::MAX,
        size.width * size.height * C <= usize::MAX,
        size.numel(C) * T::BYTES + 3 <= usize::MAX,
        size.numel(C) * T::BYTES + 3 <= class,
        is_power_of_two(class),
        64 <= class <= session.device.limits.max_buffer_size,
        class <= 0x8000_0000_0000_0000,
        image.dims() == size,
        image.byte_len() == size.numel(C) * T::BYTES,
    ensures
        session.can_upload::<T>(size, C),
        size.numel(C) > 0 ==> session.can_download(image),
{
    T::lemma_positive();
    let n = size.numel(C) * T::BYTES as nat;
    law_allocations_reach_the_limit(session, aligned(n), class);
    assert(size.numel(C) > 0 ==> n > 0) by (nonlinear_arith)
        requires
            n == size.numel(C) * T::BYTES as nat,
            T::BYTES > 0,
    ;
}

/// A tensor can be uploaded, and one that has elements downloaded, wherever a power of two that is large
/// enough for its bytes is within what the device allows.
pub proof fn law_tensors_are_transferable_within_the_limit<T: GpuElement, const N: usize>(
    session: WgpuSession,
    shape: Seq<usize>,
    tensor: GpuTensor<T, N>,
    class: nat,
)
    requires
        product(shape) * 4 <= usize::MAX,
        product(shape) * 4 <= class,
        is_power_of_two(class),
        64 <= class <= session.device.limits.max_buffer_size,
        class <= 0x8000_0000_0000_0000,
        tensor.byte_len() == product(shape) * 4,
    ensures
        session.can_upload_tensor::<T>(shape),
        product(shape) > 0 ==> session.can_download_tensor(tensor),
{
    T::lemma_size();
    let n = product(shape);
    assert(n * T::BYTES as nat == n * 4) by (nonlinear_arith)
        requires
            T::BYTES == 4,
    ;
    law_allocations_reach_the_limit(session, n * 4, class);
}

} // verus!
