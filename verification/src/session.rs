//! Sessions: a device with its pools.
use vstd::prelude::*;

use crate::allocator::{PooledBufferGuard, WgpuAllocator};
use crate::device::{opened_on, DeviceOptions, WgpuDevice};
use crate::error::WgpuError;
use crate::gpu::{
    buffer_info, create_buffer, size_of_buffer, write_buffer, BufferUse, Dispatch, Gpu,
    PowerPreference, Program,
};
use crate::kernel::{is_kernel_name, kernel_named};
use crate::pipeline::PipelineInfo;
use crate::pool::{
    after_release, after_reuse, class_of, compute_use, count, in_stock, kept, law_count_is_bounded,
    law_released_buffer_is_reused, law_size_class_is_stable, law_size_class_is_the_smallest,
    is_power_of_two, lemma_class_covers, lemma_class_is_power, lemma_end_classes, lemma_powers_apart,
    lemma_restock, lemma_reuse,
    lemma_same_stock, lemma_stock_unaffected, size_class, staging_use, stocked, stores, uniform_use,
    BufferPool, MAX_CLASS, MIN_CLASS, StagingPoolMap,
};
use crate::shader::Key;

verus! {

/// The number of unused compute buffers that a session keeps per size class.
pub const COMPUTE_BUFFERS_PER_CLASS: usize = 4;

/// The number of staging buffers that a session keeps per size class.
pub const STAGING_BUFFERS_PER_CLASS: usize = 3;

/// A session for executing compute operations on the GPU.
///
/// This holds the core device, queue, and resource pools needed to
/// run operations and manage memory efficiently.
pub struct WgpuSession {
    pub device: WgpuDevice,
    pub compute_pool: BufferPool,
    pub staging_pool: StagingPoolMap,
    /// The buffer that a shader's parameters are passed in where the device has no immediate data.
    /// One is enough, for the queue does its work in order.
    pub parameters: Option<wgpu::Buffer>,
}

impl WgpuSession {
    /// The device and its queue.
    pub open spec fn gpu(self) -> Gpu {
        self.device.gpu
    }

    /// The bytes in each buffer, once the work handed over so far is done.
    pub open spec fn memory(self) -> Map<nat, Seq<u8>> {
        self.device.gpu.memory()
    }

    /// A buffer that is kept by a pool.
    pub open spec fn pooled(self, id: nat) -> bool {
        stores(self.compute_pool@, id) || stores(self.staging_pool@, id)
    }

    /// The buffer that parameters are passed in.
    pub open spec fn is_parameter(self, id: nat) -> bool {
        self.parameters matches Some(buffer) && buffer_info(buffer).id == id
    }

    /// A buffer that was created and that the session does not keep: it may be in use.
    pub open spec fn live(self, id: nat) -> bool {
        self.memory().contains_key(id) && !self.pooled(id) && !self.is_parameter(id)
    }

    /// The pools are in order and share nothing, neither with each other nor with the buffer for
    /// parameters.
    pub open spec fn sound(self) -> bool {
        &&& self.device.wf()
        &&& self.compute_pool.wf()
        &&& self.compute_pool.max_per_class() == COMPUTE_BUFFERS_PER_CLASS
        &&& self.staging_pool.wf()
        &&& self.staging_pool.count_per_class() == STAGING_BUFFERS_PER_CLASS
        &&& stocked(self.compute_pool@, self.gpu(), compute_use())
        &&& stocked(self.staging_pool@, self.gpu(), staging_use())
        &&& forall|id: nat| #[trigger]
            stores(self.compute_pool@, id) ==> !stores(self.staging_pool@, id)
        &&& self.parameters matches Some(buffer) ==> {
            &&& self.gpu().usable(buffer)
            &&& !self.pooled(buffer_info(buffer).id)
            &&& buffer_info(buffer).usage == uniform_use()
            &&& MIN_CLASS <= buffer_info(buffer).size
                <= self.device.limits.max_uniform_buffer_binding_size
        }
    }

    /// What is kept under the name of one of this crate's shaders is the pipeline of that shader.
    pub open spec fn keeps_own(self) -> bool {
        forall|key: Key| #[trigger]
            self.device.cache().contains_key(key) && is_kernel_name(key.shader_name)
                ==> self.device.cache()[key].program == kernel_named(key.shader_name).program(
                self.device.features,
            )
    }

    /// The same pipelines on a device with the same features are as much in order.
    pub proof fn lemma_keeps_own(self, before: WgpuSession)
        requires
            self.device.features == before.device.features,
            self.device.pipeline_cache == before.device.pipeline_cache,
        ensures
            before.keeps_own() ==> self.keeps_own(),
    {
        assert(self.device.cache() == before.device.cache());
        if before.keeps_own() {
            assert forall|key: Key| #[trigger]
                self.device.cache().contains_key(key) && is_kernel_name(
                    key.shader_name,
                ) implies self.device.cache()[key].program == kernel_named(
                key.shader_name,
            ).program(self.device.features) by {
                assert(before.device.cache().contains_key(key));
            }
        }
    }

    /// The session is in order, and so are the pipelines that this crate's operations use.
    pub open spec fn wf(self) -> bool {
        self.sound() && self.keeps_own()
    }

    /// The buffer is a compute buffer of this session that is in use.
    pub open spec fn holds(self, buffer: wgpu::Buffer) -> bool {
        let info = buffer_info(buffer);
        &&& self.gpu().usable(buffer)
        &&& self.live(info.id)
        &&& info.usage == compute_use()
        &&& size_class(info.size as nat) == info.size
    }

    /// Whatever was in use `before` is in use still, with the same bytes.
    pub open spec fn carries(self, before: WgpuSession) -> bool {
        &&& self.device.same_setup(before.device)
        &&& forall|id: nat| #[trigger]
            before.live(id) ==> self.live(id) && self.memory()[id] == before.memory()[id] && (
            self.gpu().mapped().contains_key(id) <==> before.gpu().mapped().contains_key(id))
    }

    /// The buffer is held still, with the bytes that it had `before`.
    pub open spec fn keeps(self, before: WgpuSession, buffer: wgpu::Buffer) -> bool {
        let id = buffer_info(buffer).id;
        self.holds(buffer) && self.memory()[id] == before.memory()[id]
    }

    /// The pools, the pipelines and the buffer for parameters are as `before`.
    pub open spec fn same_keep(self, before: WgpuSession) -> bool {
        &&& self.device.same_setup(before.device)
        &&& self.device.pipeline_cache == before.device.pipeline_cache
        &&& self.gpu().compiled() == before.gpu().compiled()
        &&& self.compute_pool == before.compute_pool
        &&& self.staging_pool == before.staging_pool
        &&& self.parameters == before.parameters
    }

    /// No work was handed over, nothing was compiled, and the pipelines and the buffer for
    /// parameters are as `before`.
    pub open spec fn same_work(self, before: WgpuSession) -> bool {
        &&& self.device.pipeline_cache == before.device.pipeline_cache
        &&& self.parameters == before.parameters
        &&& self.gpu().dispatched() == before.gpu().dispatched()
        &&& self.gpu().compiled() == before.gpu().compiled()
    }

    /// The buffer is the one of its class that the compute pool was to hand out next, or a new one
    /// where the pool kept none of that class.
    pub open spec fn handed_out(self, before: WgpuSession, buffer: wgpu::Buffer) -> bool {
        let info = buffer_info(buffer);
        let bucket = kept(before.compute_pool@, info.size);
        if bucket.len() > 0 {
            &&& buffer == bucket.last()
            &&& self.compute_pool@ == after_reuse(before.compute_pool@, info.size)
        } else {
            &&& self.compute_pool@ == before.compute_pool@
            &&& !before.memory().contains_key(info.id)
        }
    }

    /// The buffer was handed out by the compute pool, and nothing was created but what the pool
    /// did not keep.
    pub open spec fn took_from_pool(self, before: WgpuSession, buffer: wgpu::Buffer) -> bool {
        let info = buffer_info(buffer);
        &&& self.handed_out(before, buffer)
        &&& self.memory().dom() == if kept(before.compute_pool@, info.size).len() > 0 {
            before.memory().dom()
        } else {
            before.memory().dom().insert(info.id)
        }
    }

    /// A pooled buffer for `byte_size` bytes can be had on the device.
    pub open spec fn can_allocate(self, byte_size: nat) -> bool {
        &&& byte_size <= MAX_CLASS
        &&& size_class(byte_size) <= self.device.limits.max_buffer_size
    }

    /// Whether a pooled buffer for `byte_size` bytes can be had on the device.
    pub fn allows_buffer(&self, byte_size: u64) -> (allowed: bool)
        ensures
            allowed == self.can_allocate(byte_size as nat),
    {
        byte_size <= MAX_CLASS && class_of(byte_size) <= self.device.limits.max_buffer_size
    }

    /// What is held stays held as long as it is carried over.
    pub proof fn lemma_carried(self, before: WgpuSession, buffer: wgpu::Buffer)
        requires
            self.carries(before),
            before.holds(buffer),
        ensures
            self.holds(buffer),
            self.memory()[buffer_info(buffer).id] == before.memory()[buffer_info(buffer).id],
    {
        assert(before.live(buffer_info(buffer).id));
    }

    /// A session on an open device, with empty pools.
    pub fn on_device(device: WgpuDevice) -> (session: Self)
        requires
            device.wf(),
            device.cache() == Map::<Key, PipelineInfo>::empty(),
        ensures
            session.wf(),
            session.device == device,
            session.compute_pool@ == Map::<u64, Seq<wgpu::Buffer>>::empty(),
            session.staging_pool@ == Map::<u64, Seq<wgpu::Buffer>>::empty(),
            session.parameters is None,
    {
        WgpuSession {
            device,
            compute_pool: BufferPool::new(COMPUTE_BUFFERS_PER_CLASS),
            staging_pool: StagingPoolMap::new(STAGING_BUFFERS_PER_CLASS),
            parameters: None,
        }
    }

    /// Creates a new `WgpuSession` with the specified options.
    pub fn with_options(options: DeviceOptions) -> (outcome: Result<Self, WgpuError>)
        ensures
            match outcome {
                Ok(session) => {
                    &&& session.wf()
                    &&& session.device.workgroup_size == options.workgroup_size
                    &&& session.compute_pool@ == Map::<u64, Seq<wgpu::Buffer>>::empty()
                    &&& session.staging_pool@ == Map::<u64, Seq<wgpu::Buffer>>::empty()
                    &&& session.parameters is None
                    &&& session.device.cache() == Map::<Key, PipelineInfo>::empty()
                    &&& session.memory() == Map::<nat, Seq<u8>>::empty()
                    &&& session.gpu().mapped() == Map::<nat, nat>::empty()
                    &&& session.gpu().dispatched() == Seq::<Dispatch>::empty()
                    &&& session.gpu().compiled() == Seq::<Program>::empty()
                    &&& opened_on(
                        session.gpu().info().adapter,
                        options,
                        session.device.limits,
                        session.device.features,
                    )
                },
                Err(WgpuError::NoAdapter(backend)) => backend == options.backend,
                Err(error) => error is DeviceCreation,
            },
    {
        match WgpuDevice::new(options) {
            Ok(device) => Ok(Self::on_device(device)),
            Err(error) => Err(error),
        }
    }

    /// Creates a new `WgpuSession` with default options.
    pub fn new() -> (outcome: Result<Self, WgpuError>)
        ensures
            match outcome {
                Ok(session) => {
                    &&& session.wf()
                    &&& session.device.workgroup_size == (8u32, 8u32)
                    &&& session.compute_pool@ == Map::<u64, Seq<wgpu::Buffer>>::empty()
                    &&& session.staging_pool@ == Map::<u64, Seq<wgpu::Buffer>>::empty()
                    &&& session.parameters is None
                    &&& session.device.cache() == Map::<Key, PipelineInfo>::empty()
                    &&& session.memory() == Map::<nat, Seq<u8>>::empty()
                    &&& session.gpu().mapped() == Map::<nat, nat>::empty()
                    &&& session.gpu().dispatched() == Seq::<Dispatch>::empty()
                    &&& session.gpu().compiled() == Seq::<Program>::empty()
                    &&& forall|options: DeviceOptions|
                        options.backend is None && options.power_preference
                            == PowerPreference::HighPerformance ==> #[trigger] opened_on(
                            session.gpu().info().adapter,
                            options,
                            session.device.limits,
                            session.device.features,
                        )
                },
                Err(WgpuError::NoAdapter(backend)) => backend is None,
                Err(error) => error is DeviceCreation,
            },
    {
        Self::with_options(DeviceOptions::default())
    }

    /// Returns a reference to the raw `wgpu::Device`.
    pub fn raw_device(&self) -> (device: &wgpu::Device)
        ensures
            *device == self.gpu().device,
    {
        &self.device.gpu.device
    }

    /// Returns a reference to the raw `wgpu::Queue`.
    pub fn raw_queue(&self) -> (queue: &wgpu::Queue)
        ensures
            *queue == self.gpu().queue,
    {
        &self.device.gpu.queue
    }

    /// Acquire a pooled compute buffer and wrap it in a `WgpuAllocator`.
    ///
    /// This is the single entry point for all compute buffer allocation: uploads and the outputs
    /// of all operations go through here. The buffer goes back to the pool when it is
    /// [released](WgpuSession::release).
    #[verifier::spinoff_prover]
    pub fn acquire_compute(&mut self, byte_size: u64) -> (alloc: WgpuAllocator)
        requires
            old(self).wf(),
            old(self).can_allocate(byte_size as nat),
        ensures
            final(self).wf(),
            final(self).carries(*old(self)),
            final(self).holds(alloc.memory()),
            !old(self).live(buffer_info(alloc.memory()).id),
            buffer_info(alloc.memory()).size == size_class(byte_size as nat),
            final(self).staging_pool == old(self).staging_pool,
            final(self).same_work(*old(self)),
            final(self).gpu().mapped() == old(self).gpu().mapped(),
            final(self).took_from_pool(*old(self), alloc.memory()),
            kept(
                old(self).compute_pool@,
                size_class(byte_size as nat) as u64,
            ).len() > 0 ==> final(self).gpu() == old(self).gpu(),
            kept(
                old(self).compute_pool@,
                size_class(byte_size as nat) as u64,
            ).len() == 0 ==> final(self).gpu().grown(
                old(self).gpu(),
                seq![alloc.memory()],
                size_class(byte_size as nat) as u64,
                compute_use(),
            ),
    {
        let ghost class = size_class(byte_size as nat) as u64;
        proof {
            lemma_class_fits(byte_size);
            lemma_stores_known(self.compute_pool@, self.gpu(), compute_use());
            lemma_stores_known(self.staging_pool@, self.gpu(), staging_use());
            law_size_class_is_stable(byte_size as nat);
        }
        let buffer = self.compute_pool.acquire(&mut self.device.gpu, byte_size);
        proof {
            let stock = old(self).compute_pool@;
            let id = buffer_info(buffer).id;
            if kept(stock, class).len() > 0 {
                lemma_reuse(stock, old(self).gpu(), compute_use(), class);
            } else {
                assert(seq![buffer][0] == buffer);
                assert forall|i: int| 0 <= i < seq![buffer].len() implies #[trigger] seq![buffer][i]
                    == buffer by {}
                assert(self.memory().dom() =~= old(self).memory().dom().insert(id));
                lemma_stock_unaffected(stock, old(self).gpu(), self.gpu(), compute_use());
                lemma_stock_unaffected(
                    old(self).staging_pool@,
                    old(self).gpu(),
                    self.gpu(),
                    staging_use(),
                );
            }
        }
        proof {
            self.lemma_keeps_own(*old(self));
        }
        WgpuAllocator::pooled(buffer)
    }

    /// Gives one handle of a compute buffer of this session up. With the last one the buffer goes
    /// back to the pool; before that nothing changes.
    pub fn release_handle(&mut self, guard: PooledBufferGuard) -> (left: PooledBufferGuard)
        requires
            old(self).wf(),
            guard.handles() > 0,
            old(self).holds(guard.held()->0),
        ensures
            final(self).wf(),
            final(self).device == old(self).device,
            final(self).staging_pool == old(self).staging_pool,
            final(self).parameters == old(self).parameters,
            left.handles() == guard.handles() - 1,
            guard.handles() > 1 ==> left.held() == guard.held(),
            guard.handles() == 1 ==> left.held() is None,
            final(self).compute_pool@ == if guard.handles() == 1 {
                after_release(
                    old(self).compute_pool@,
                    old(self).compute_pool.max_per_class(),
                    guard.held()->0,
                )
            } else {
                old(self).compute_pool@
            },
            forall|id: nat| #[trigger]
                old(self).live(id) && (id != buffer_info(guard.held()->0).id || guard.handles() > 1)
                    ==> final(self).live(id),
    {
        let ghost buffer = guard.held()->0;
        let ghost info = buffer_info(buffer);
        proof {
            lemma_class_bounded(info.size);
            lemma_restock(self.compute_pool@, self.gpu(), compute_use(), buffer);
            lemma_same_stock(self.compute_pool@, self.gpu(), compute_use(), info.size);
        }
        let left = guard.release(&mut self.compute_pool);
        proof {
            self.lemma_keeps_own(*old(self));
        }
        left
    }

    /// Gives a compute buffer that is no longer in use back to the pool.
    pub fn release(&mut self, alloc: WgpuAllocator)
        requires
            old(self).wf(),
            old(self).holds(alloc.memory()),
        ensures
            final(self).wf(),
            final(self).device == old(self).device,
            final(self).staging_pool == old(self).staging_pool,
            final(self).parameters == old(self).parameters,
            final(self).compute_pool@ == after_release(
                old(self).compute_pool@,
                old(self).compute_pool.max_per_class(),
                alloc.memory(),
            ),
            forall|id: nat| #[trigger]
                old(self).live(id) && id != buffer_info(alloc.memory()).id
                    ==> final(self).live(id),
    {
        let _spent = self.release_handle(alloc.into_guard());
    }
}

impl WgpuSession {
    /// The buffer for parameters has room for `n` bytes.
    pub open spec fn has_parameters(self, n: nat) -> bool {
        self.parameters matches Some(buffer) && buffer_info(buffer).size >= n
    }

    /// The number of the buffer that parameters are passed in.
    pub open spec fn parameter_id(self) -> nat {
        buffer_info(self.parameters->0).id
    }

    /// The bytes are in the buffer for parameters, which is the one that was there before or, where
    /// that had no room for them, a new one.
    pub open spec fn passed(self, before: WgpuSession, bytes: Seq<u8>) -> bool {
        &&& self.parameters is Some
        &&& self.memory()[self.parameter_id()].take(bytes.len() as int) == bytes
        &&& if before.has_parameters(bytes.len()) {
            self.parameters == before.parameters && self.memory().dom() == before.memory().dom()
        } else {
            &&& !before.memory().contains_key(self.parameter_id())
            &&& buffer_info(self.parameters->0).size == size_class(bytes.len())
            &&& self.memory().dom() == before.memory().dom().insert(self.parameter_id())
        }
    }

    /// Puts a shader's parameters into the buffer for them.
    #[verifier::spinoff_prover]
    pub fn pass_parameters(&mut self, bytes: &[u8])
        requires
            old(self).sound(),
            bytes@.len() > 0,
            bytes@.len() % 4 == 0,
            old(self).can_allocate(bytes@.len()),
            size_class(bytes@.len()) <= old(self).device.limits.max_uniform_buffer_binding_size,
        ensures
            final(self).sound(),
            final(self).device.same_setup(old(self).device),
            final(self).device.pipeline_cache == old(self).device.pipeline_cache,
            final(self).compute_pool == old(self).compute_pool,
            final(self).staging_pool == old(self).staging_pool,
            final(self).gpu().mapped() == old(self).gpu().mapped(),
            final(self).gpu().dispatched() == old(self).gpu().dispatched(),
            final(self).gpu().compiled() == old(self).gpu().compiled(),
            final(self).passed(*old(self), bytes@),
            forall|id: nat| #[trigger]
                old(self).memory().contains_key(id) && id != final(self).parameter_id()
                    ==> final(self).memory()[id] == old(self).memory()[id],
            forall|id: nat| #[trigger] old(self).live(id) ==> final(self).live(id),
    {
        let n: u64 = bytes.len() as u64;
        proof {
            lemma_class_covers(bytes@.len());
            lemma_class_fits(n);
            lemma_stores_known(self.compute_pool@, self.gpu(), compute_use());
            lemma_stores_known(self.staging_pool@, self.gpu(), staging_use());
        }
        let buffer = match self.parameters.take() {
            Some(buffer) if size_of_buffer(&buffer) >= n => buffer,
            _ => create_buffer(
                &mut self.device.gpu,
                "parameters",
                class_of(n),
                BufferUse {
                    map_read: false,
                    copy_src: false,
                    copy_dst: true,
                    storage: false,
                    uniform: true,
                },
            ),
        };
        let ghost created = *self;
        write_buffer(&mut self.device.gpu, &buffer, bytes);
        self.parameters = Some(buffer);
        proof {
            let id = buffer_info(buffer).id;
            assert(self.memory()[id].take(bytes@.len() as int) =~= bytes@);
            assert(self.memory().dom() =~= created.memory().dom());
            if old(self).has_parameters(bytes@.len()) {
                assert(self.memory().dom() =~= old(self).memory().dom());
            }
            lemma_stock_unaffected(
                self.compute_pool@,
                old(self).gpu(),
                self.gpu(),
                compute_use(),
            );
            lemma_stock_unaffected(
                self.staging_pool@,
                old(self).gpu(),
                self.gpu(),
                staging_use(),
            );
        }
    }
}

/// The size class of what can be asked for is a `u64`.
pub proof fn lemma_class_fits(byte_size: u64)
    requires
        byte_size <= MAX_CLASS,
    ensures
        size_class(byte_size as nat) <= MAX_CLASS,
        size_class(byte_size as nat) >= byte_size,
{
    lemma_end_classes();
    law_size_class_is_the_smallest(byte_size as nat, MAX_CLASS as nat);
}

/// A size that is a size class is at most the largest.
pub proof fn lemma_class_bounded(size: u64)
    requires
        size_class(size as nat) == size,
    ensures
        size <= MAX_CLASS,
        size >= MIN_CLASS,
        size % 4 == 0,
{
    lemma_class_is_power(size as nat);
}

/// What is in a stock is in the device's memory.
pub proof fn lemma_stores_known(stock: Map<u64, Seq<wgpu::Buffer>>, gpu: Gpu, usage: BufferUse)
    requires
        stocked(stock, gpu, usage),
    ensures
        forall|id: nat| #[trigger]
            stores(stock, id) ==> gpu.memory().contains_key(id)
                && !gpu.mapped().contains_key(id),
{
    assert forall|id: nat| #[trigger] stores(stock, id) implies gpu.memory().contains_key(id)
        && !gpu.mapped().contains_key(id) by {
        let (c, i) = choose|c: u64, i: int|
            #![trigger stock[c][i]]
            in_stock(stock, c, i) && buffer_info(stock[c][i]).id == id;
        assert(gpu.usable(stock[c][i]));
    }
}

// ── Laws ─────────────────────────────────────────────────────────────────────

/// Operations can be put one after the other: what was in use before the first is in use, with the
/// same bytes, after the last.
pub proof fn law_operations_compose(first: WgpuSession, second: WgpuSession, third: WgpuSession)
    requires
        second.carries(first),
        third.carries(second),
    ensures
        third.carries(first),
{
    assert forall|id: nat| #[trigger] first.live(id) implies third.live(id) && third.memory()[id]
        == first.memory()[id] && (third.gpu().mapped().contains_key(id)
        <==> first.gpu().mapped().contains_key(id)) by {
        assert(second.live(id));
    }
}

/// An operation keeps the bytes of whatever is held when it starts.
pub proof fn law_operations_keep_what_is_held(
    before: WgpuSession,
    after: WgpuSession,
    buffer: wgpu::Buffer,
)
    requires
        before.holds(buffer),
        after.carries(before),
    ensures
        after.keeps(before, buffer),
{
    after.lemma_carried(before, buffer);
}

/// Giving a buffer back keeps the bytes of every other that is held.
pub proof fn law_releases_keep_the_others(
    before: WgpuSession,
    after: WgpuSession,
    released: wgpu::Buffer,
    buffer: wgpu::Buffer,
)
    requires
        before.holds(buffer),
        buffer_info(buffer).id != buffer_info(released).id,
        after.device == before.device,
        forall|id: nat| #[trigger]
            before.live(id) && id != buffer_info(released).id ==> after.live(id),
    ensures
        after.keeps(before, buffer),
{
    assert(before.live(buffer_info(buffer).id));
}

/// What is kept step by step is kept from the first to the last.
pub proof fn law_keeping_composes(
    first: WgpuSession,
    second: WgpuSession,
    third: WgpuSession,
    buffer: wgpu::Buffer,
)
    requires
        second.keeps(first, buffer),
        third.keeps(second, buffer),
    ensures
        third.keeps(first, buffer),
{
}

/// No two images or tensors in use share a buffer: what an operation hands out is none of those
/// that were in use before it.
pub proof fn law_buffers_in_use_are_distinct(
    before: WgpuSession,
    held: wgpu::Buffer,
    handed_out: wgpu::Buffer,
)
    requires
        before.holds(held),
        !before.live(buffer_info(handed_out).id),
    ensures
        held != handed_out,
        buffer_info(held).id != buffer_info(handed_out).id,
{
}

/// Work of a fixed size allocates nothing once it is warm: the buffer that was given back last is
/// the one that the next operation of its size gets, and no buffer is created.
pub proof fn law_released_buffer_is_the_next(
    before: WgpuSession,
    released: WgpuSession,
    after: WgpuSession,
    buffer: wgpu::Buffer,
    next: wgpu::Buffer,
)
    requires
        before.wf(),
        before.holds(buffer),
        kept(before.compute_pool@, buffer_info(buffer).size).len()
            < COMPUTE_BUFFERS_PER_CLASS,
        released.compute_pool@ == after_release(
            before.compute_pool@,
            before.compute_pool.max_per_class(),
            buffer,
        ),
        after.took_from_pool(released, next),
        buffer_info(next).size == buffer_info(buffer).size,
    ensures
        next == buffer,
        after.memory().dom() == released.memory().dom(),
        count(released.compute_pool@) == count(before.compute_pool@) + 1,
        count(after.compute_pool@) == count(before.compute_pool@),
{
    law_released_buffer_is_reused(
        before.compute_pool@,
        before.compute_pool.max_per_class(),
        buffer,
        buffer_info(buffer).size,
    );
}

/// A session never keeps more than four unused compute buffers nor three staging buffers per size
/// class, and so only so many in all.
pub proof fn law_pools_are_capped(session: WgpuSession, class: u64)
    requires
        session.wf(),
    ensures
        session.compute_pool.max_per_class() == 4,
        session.staging_pool.count_per_class() == 3,
        kept(session.compute_pool@, class).len() <= 4,
        kept(session.staging_pool@, class).len() <= 3,
        count(session.compute_pool@) <= 232,
        count(session.staging_pool@) <= 174,
{
    session.staging_pool.lemma_wf();
    law_count_is_bounded(session.compute_pool@, 4);
    law_count_is_bounded(session.staging_pool@, 3);
}

/// A buffer can be had wherever a power of two from 64 on is large enough for it and within what the device
/// allows, and only there.
pub proof fn law_allocations_reach_the_limit(session: WgpuSession, n: nat, class: nat)
    requires
        is_power_of_two(class),
        64 <= class <= 0x8000_0000_0000_0000,
        n <= class,
    ensures
        class <= session.device.limits.max_buffer_size ==> session.can_allocate(n),
        n > 64 && class < 2 * n && session.can_allocate(n) ==> class
            <= session.device.limits.max_buffer_size,
{
    law_size_class_is_the_smallest(n, class);
    if n > 64 && class < 2 * n && size_class(n) < class {
        lemma_powers_apart(size_class(n), class);
    }
}

} // verus!
