//! The device, its queue and the handles that live on it.
//!
//! A [`Gpu`] is a `wgpu` device together with the queue it was handed out with. What `wgpu` keeps
//! behind those handles is opaque, so this module names what the rest of the crate has to know of
//! it: which bytes each buffer holds once the work handed to the queue so far is done
//! ([`memory`]), which buffers are mapped ([`mapped`]), and which compute work was handed over
//! ([`dispatched`]). The calls into `wgpu` are in the small functions below, and the contract of each
//! says what it does to these.
//!
//! `wgpu` reports a misuse and an exhausted memory to the device's error handler, which by default
//! stops the program. The `requires` clauses rule out every misuse. A device that is lost does not
//! stop the program: calls on it return, and what they were to do is not done. Exhausted memory and a
//! lost device are faults of the machine that no caller can rule out, and of them nothing is claimed.
use vstd::prelude::*;

verus! {

// ── Outside types ────────────────────────────────────────────────────────────

/// `wgpu`'s device handle.
#[verifier::external_type_specification]
#[verifier::external_body]
pub struct ExDevice(wgpu::Device);

/// `wgpu`'s command queue.
#[verifier::external_type_specification]
#[verifier::external_body]
pub struct ExQueue(wgpu::Queue);

/// `wgpu`'s handle of a buffer in device memory.
#[verifier::external_type_specification]
#[verifier::external_body]
pub struct ExBuffer(wgpu::Buffer);

/// `wgpu`'s recorder of commands that are to be submitted together.
#[verifier::external_type_specification]
#[verifier::external_body]
pub struct ExCommandEncoder(wgpu::CommandEncoder);

/// `wgpu`'s recorded commands, ready to be submitted.
#[verifier::external_type_specification]
#[verifier::external_body]
pub struct ExCommandBuffer(wgpu::CommandBuffer);

/// `wgpu`'s report that a call was refused.
#[verifier::external_type_specification]
#[verifier::external_body]
pub struct ExError(wgpu::Error);

/// `wgpu`'s receipt of a submission, by which a caller can wait for it.
#[verifier::external_type_specification]
#[verifier::external_body]
pub struct ExSubmissionIndex(wgpu::SubmissionIndex);

/// `wgpu`'s report that a buffer could not be mapped.
#[verifier::external_type_specification]
#[verifier::external_body]
pub struct ExBufferAsyncError(wgpu::BufferAsyncError);

/// `wgpu`'s entry point, from which adapters are requested.
#[verifier::external_type_specification]
#[verifier::external_body]
pub struct ExInstance(wgpu::Instance);

/// `wgpu`'s handle of a physical device.
#[verifier::external_type_specification]
#[verifier::external_body]
pub struct ExAdapter(wgpu::Adapter);

/// `wgpu`'s full table of limits.
#[verifier::external_type_specification]
#[verifier::external_body]
pub struct ExLimits(wgpu::Limits);

/// `wgpu`'s report that no adapter was found.
#[verifier::external_type_specification]
#[verifier::external_body]
pub struct ExRequestAdapterError(wgpu::RequestAdapterError);

/// `wgpu`'s report that a device could not be opened.
#[verifier::external_type_specification]
#[verifier::external_body]
pub struct ExRequestDeviceError(wgpu::RequestDeviceError);

// ── What the handles stand for ───────────────────────────────────────────────

/// The uses a buffer is created for, one flag for each use that occurs in this crate.
#[derive(Clone, Copy, Debug, PartialEq, Eq, Structural)]
pub struct BufferUse {
    /// The buffer can be mapped for reading on the CPU.
    pub map_read: bool,
    /// The buffer can be the source of a copy.
    pub copy_src: bool,
    /// The buffer can be the destination of a copy or of a queue write.
    pub copy_dst: bool,
    /// The buffer can be bound as a storage buffer of a shader.
    pub storage: bool,
    /// The buffer can be bound as a uniform buffer of a shader.
    pub uniform: bool,
}

/// The limits of a device that decide whether a call succeeds.
#[derive(Clone, Copy, Debug, PartialEq, Eq, Structural)]
pub struct DeviceLimits {
    pub max_buffer_size: u64,
    pub max_storage_buffer_binding_size: u32,
    pub max_storage_buffers_per_shader_stage: u32,
    pub max_uniform_buffer_binding_size: u32,
    pub max_uniform_buffers_per_shader_stage: u32,
    pub max_bind_groups: u32,
    pub max_bindings_per_bind_group: u32,
    pub max_immediate_size: u32,
    pub max_compute_workgroup_size_x: u32,
    pub max_compute_workgroup_size_y: u32,
    pub max_compute_workgroup_size_z: u32,
    pub max_compute_invocations_per_workgroup: u32,
    pub max_compute_workgroups_per_dimension: u32,
}

/// The optional features of a device that this crate relies on.
#[derive(Clone, Copy, Debug, PartialEq, Eq, Structural)]
pub struct DeviceFeatures {
    /// Shaders can take immediate data.
    pub immediates: bool,
}

/// What a device handle was opened with. `id` is a number that no other device shares, and
/// `adapter` is what the device was opened on.
pub struct DeviceInfo {
    pub id: nat,
    pub adapter: AdapterInfo,
    pub limits: DeviceLimits,
    pub features: DeviceFeatures,
}

/// What a buffer handle was created with. `id` is a number that no other buffer shares.
pub struct BufferInfo {
    pub device: nat,
    pub id: nat,
    pub size: u64,
    pub usage: BufferUse,
}

/// How a shader uses what is bound to a slot.
#[derive(Clone, Copy, Debug, PartialEq, Eq, Structural)]
pub enum Access {
    /// A storage buffer that is read.
    Read,
    /// A storage buffer that is read and written.
    Write,
    /// A uniform buffer.
    Uniform,
}

/// One entry of a bind group layout: a buffer in slot `slot` of group 0, seen by the compute stage.
#[derive(Clone, Copy, Debug, PartialEq, Eq, Structural)]
pub struct LayoutEntry {
    pub slot: u32,
    pub access: Access,
}

/// What a compute pipeline was built from: the text of its shader, the layout of its buffers and
/// the number of bytes of immediate data that it takes.
pub struct Program {
    pub source: Seq<char>,
    pub entries: Seq<LayoutEntry>,
    pub immediate_size: u32,
}

/// One dispatch of a compute pipeline: `buffers[slot]` is bound to the slot.
#[verifier::ext_equal]
pub struct Dispatch {
    pub program: Program,
    pub buffers: Map<u32, nat>,
    pub immediates: Seq<u8>,
    pub groups: (u32, u32, u32),
}

impl Dispatch {
    /// The buffer is bound to the slot of the `i`th entry of the layout, for writing.
    pub open spec fn writes_at(self, i: int, id: nat) -> bool {
        &&& 0 <= i < self.program.entries.len()
        &&& self.program.entries[i].access == Access::Write
        &&& self.buffers[self.program.entries[i].slot] == id
    }

    /// The dispatch may write to the buffer.
    pub open spec fn writes(self, id: nat) -> bool {
        exists|i: int| self.writes_at(i, id)
    }
}

/// One recorded command.
pub enum Command {
    /// Copies the first `size` bytes of `source` over those of `destination`.
    Copy { source: nat, destination: nat, size: nat },
    /// Runs a compute shader.
    Compute(Dispatch),
}

impl Command {
    /// The buffers the command touches.
    pub open spec fn touches(self, id: nat) -> bool {
        match self {
            Command::Copy { source, destination, .. } => id == source || id == destination,
            Command::Compute(dispatch) => exists|slot: u32|
                dispatch.buffers.contains_key(slot) && #[trigger] dispatch.buffers[slot] == id,
        }
    }

    /// What the command makes of a memory: a copy is exact; a dispatch leaves everything as it is
    /// except the bytes of the buffers it writes to, which are the shader's to decide.
    pub open spec fn effect(self, before: Map<nat, Seq<u8>>, after: Map<nat, Seq<u8>>) -> bool {
        match self {
            Command::Copy { source, destination, size } => after == before.insert(
                destination,
                overwrite(before[destination], before[source].take(size as int)),
            ),
            Command::Compute(dispatch) => {
                &&& after.dom() == before.dom()
                &&& forall|id: nat| #[trigger]
                    before.contains_key(id) ==> after[id].len() == before[id].len() && (
                    !dispatch.writes(id) ==> after[id] == before[id])
            },
        }
    }
}

/// What a command encoder has recorded, and for which device.
pub struct Recording {
    pub device: nat,
    pub commands: Seq<Command>,
}

/// The backends to look for an adapter on.
#[derive(Clone, Copy, Debug, PartialEq, Eq, Structural)]
pub struct Backends {
    pub noop: bool,
    pub vulkan: bool,
    pub metal: bool,
    pub dx12: bool,
    pub gl: bool,
    pub browser_webgpu: bool,
}

/// Which of several adapters to prefer.
#[derive(Clone, Copy, Debug, PartialEq, Eq, Structural)]
pub enum PowerPreference {
    NoPreference,
    LowPower,
    HighPerformance,
}

/// What an adapter was asked for with, and what the physical device that it stands for can do.
pub struct AdapterInfo {
    pub backends: Backends,
    pub power_preference: PowerPreference,
    pub limits: DeviceLimits,
    pub features: DeviceFeatures,
}

/// What a device was opened with.
pub uninterp spec fn device_info(device: wgpu::Device) -> DeviceInfo;

/// The device that a queue hands its work to.
pub uninterp spec fn queue_device(queue: wgpu::Queue) -> nat;

/// What a buffer was created with.
pub uninterp spec fn buffer_info(buffer: wgpu::Buffer) -> BufferInfo;

/// The buffers created on a device so far, each with the bytes that it holds once the work handed
/// to the queue so far is done.
pub uninterp spec fn memory(device: wgpu::Device) -> Map<nat, Seq<u8>>;

/// The buffers of a device that are mapped, or whose mapping was asked for and is still open, each
/// with the number of bytes from its start that can be read: none as long as the mapping is open.
pub uninterp spec fn mapped(device: wgpu::Device) -> Map<nat, nat>;

/// The compute work handed to a device's queue so far, in order.
pub uninterp spec fn dispatched(device: wgpu::Device) -> Seq<Dispatch>;

/// The programs compiled for a device so far, in order.
pub uninterp spec fn compiled(device: wgpu::Device) -> Seq<Program>;

/// What a command encoder has recorded so far, and for which device.
pub uninterp spec fn recording(encoder: wgpu::CommandEncoder) -> Recording;

/// What recorded commands are, and for which device.
pub uninterp spec fn recorded(commands: wgpu::CommandBuffer) -> Recording;

/// The backends that an instance was opened with.
pub uninterp spec fn instance_backends(instance: wgpu::Instance) -> Backends;

/// What an adapter was asked for with, and what it can do.
pub uninterp spec fn adapter_info(adapter: wgpu::Adapter) -> AdapterInfo;

/// The part of a table of limits that this crate reads.
pub uninterp spec fn limits_table(limits: wgpu::Limits) -> DeviceLimits;

/// A device with its queue.
pub struct Gpu {
    pub device: wgpu::Device,
    pub queue: wgpu::Queue,
}

impl Gpu {
    /// The buffers created so far and the bytes in them.
    pub open spec fn memory(self) -> Map<nat, Seq<u8>> {
        memory(self.device)
    }

    /// The buffers that are mapped.
    pub open spec fn mapped(self) -> Map<nat, nat> {
        mapped(self.device)
    }

    /// The compute work handed over so far.
    pub open spec fn dispatched(self) -> Seq<Dispatch> {
        dispatched(self.device)
    }

    /// The programs compiled so far.
    pub open spec fn compiled(self) -> Seq<Program> {
        compiled(self.device)
    }

    /// What the device was opened with.
    pub open spec fn info(self) -> DeviceInfo {
        device_info(self.device)
    }

    /// The limits of the device.
    pub open spec fn limits(self) -> DeviceLimits {
        self.info().limits
    }

    /// The queue is the device's own.
    pub open spec fn paired(self) -> bool {
        queue_device(self.queue) == self.info().id
    }

    /// The buffer was created on this device.
    pub open spec fn owns(self, buffer: wgpu::Buffer) -> bool {
        let info = buffer_info(buffer);
        &&& info.device == self.info().id
        &&& self.memory().contains_key(info.id)
        &&& self.memory()[info.id].len() == info.size
    }

    /// The buffer was created on this device and is not mapped: the queue may use it.
    pub open spec fn usable(self, buffer: wgpu::Buffer) -> bool {
        self.owns(buffer) && !self.mapped().contains_key(buffer_info(buffer).id)
    }

    /// This is `before` with the buffers of `added` created on it, all of them `size` zero bytes
    /// for the same use, and nothing else changed.
    pub open spec fn grown(
        self,
        before: Gpu,
        added: Seq<wgpu::Buffer>,
        size: u64,
        usage: BufferUse,
    ) -> bool {
        &&& self.same_device(before)
        &&& self.mapped() == before.mapped()
        &&& self.dispatched() == before.dispatched()
        &&& self.compiled() == before.compiled()
        &&& forall|id: nat| #[trigger]
            before.memory().contains_key(id) ==> self.memory().contains_key(id)
                && self.memory()[id] == before.memory()[id]
        &&& forall|id: nat| #[trigger]
            self.memory().contains_key(id) ==> before.memory().contains_key(id) || exists|i: int|
                0 <= i < added.len() && buffer_info(#[trigger] added[i]).id == id
        &&& forall|i: int|
            0 <= i < added.len() ==> {
                let info = buffer_info(#[trigger] added[i]);
                &&& self.usable(added[i])
                &&& info.size == size
                &&& info.usage == usage
                &&& !before.memory().contains_key(info.id)
                &&& self.memory()[info.id] == zeros(size as nat)
            }
        &&& forall|i: int, j: int|
            0 <= i < j < added.len() ==> buffer_info(#[trigger] added[i]).id != buffer_info(
                #[trigger] added[j],
            ).id
    }

    /// The same device and queue, whatever has become of its memory.
    pub open spec fn same_device(self, other: Gpu) -> bool {
        &&& self.info() == other.info()
        &&& self.queue == other.queue
    }
}

/// `n` zero bytes.
pub open spec fn zeros(n: nat) -> Seq<u8> {
    Seq::new(n, |i: int| 0u8)
}

/// `bytes` with its first `front.len()` bytes replaced by `front`.
pub open spec fn overwrite(bytes: Seq<u8>, front: Seq<u8>) -> Seq<u8> {
    front + bytes.skip(front.len() as int)
}

// ── Calls into wgpu ──────────────────────────────────────────────────────────

/// `wgpu::Device::create_buffer`: a new buffer of `size` zero bytes, not mapped. A size over the
/// device's limit is refused, and so is a mappable buffer that is more than a copy destination.
#[verifier::external_body]
pub(crate) fn create_buffer(gpu: &mut Gpu, label: &str, size: u64, usage: BufferUse) -> (buffer: wgpu::Buffer)
    requires
        size <= old(gpu).limits().max_buffer_size,
        usage.map_read || usage.copy_src || usage.copy_dst || usage.storage || usage.uniform,
        usage.map_read ==> !usage.copy_src && !usage.storage && !usage.uniform,
    ensures
        final(gpu).queue == old(gpu).queue,
        device_info(final(gpu).device) == device_info(old(gpu).device),
        buffer_info(buffer).device == old(gpu).info().id,
        buffer_info(buffer).size == size,
        buffer_info(buffer).usage == usage,
        !old(gpu).memory().contains_key(buffer_info(buffer).id),
        !old(gpu).mapped().contains_key(buffer_info(buffer).id),
        memory(final(gpu).device) == memory(old(gpu).device).insert(
            buffer_info(buffer).id,
            zeros(size as nat),
        ),
        mapped(final(gpu).device) == mapped(old(gpu).device),
        dispatched(final(gpu).device) == dispatched(old(gpu).device),
        compiled(final(gpu).device) == compiled(old(gpu).device),
{
    let mut flags = wgpu::BufferUsages::empty();
    flags.set(wgpu::BufferUsages::MAP_READ, usage.map_read);
    flags.set(wgpu::BufferUsages::COPY_SRC, usage.copy_src);
    flags.set(wgpu::BufferUsages::COPY_DST, usage.copy_dst);
    flags.set(wgpu::BufferUsages::STORAGE, usage.storage);
    flags.set(wgpu::BufferUsages::UNIFORM, usage.uniform);
    gpu.device.create_buffer(&wgpu::BufferDescriptor {
        label: Some(label),
        size,
        usage: flags,
        mapped_at_creation: false,
    })
}

/// `wgpu::Buffer::size`: the size that the buffer was created with.
#[verifier::external_body]
pub(crate) fn size_of_buffer(buffer: &wgpu::Buffer) -> (size: u64)
    ensures
        size == buffer_info(*buffer).size,
{
    buffer.size()
}

/// `wgpu::Queue::write_buffer` at offset 0: the buffer's first bytes become `data`, the others
/// stay. The length has to be a multiple of four. The write is carried out with the next submission,
/// so a buffer that can be mapped, where it could be seen missing until then, is left out.
#[verifier::external_body]
pub(crate) fn write_buffer(gpu: &mut Gpu, buffer: &wgpu::Buffer, data: &[u8])
    requires
        old(gpu).paired(),
        old(gpu).usable(*buffer),
        buffer_info(*buffer).usage.copy_dst,
        !buffer_info(*buffer).usage.map_read,
        data@.len() % 4 == 0,
        data@.len() <= buffer_info(*buffer).size,
    ensures
        final(gpu).queue == old(gpu).queue,
        device_info(final(gpu).device) == device_info(old(gpu).device),
        memory(final(gpu).device) == memory(old(gpu).device).insert(
            buffer_info(*buffer).id,
            overwrite(memory(old(gpu).device)[buffer_info(*buffer).id], data@),
        ),
        mapped(final(gpu).device) == mapped(old(gpu).device),
        dispatched(final(gpu).device) == dispatched(old(gpu).device),
        compiled(final(gpu).device) == compiled(old(gpu).device),
{
    gpu.queue.write_buffer(buffer, 0, data)
}

/// `wgpu::Device::create_command_encoder`: an encoder of this device with nothing recorded.
#[verifier::external_body]
pub(crate) fn create_command_encoder(gpu: &Gpu, label: Option<&str>) -> (encoder: wgpu::CommandEncoder)
    ensures
        recording(encoder) == (Recording { device: gpu.info().id, commands: Seq::empty() }),
{
    gpu.device.create_command_encoder(&wgpu::CommandEncoderDescriptor { label })
}

/// `wgpu::CommandEncoder::copy_buffer_to_buffer` at offsets 0: records the copy. The size has to
/// be a multiple of four within both buffers, which have to be two and made for it.
#[verifier::external_body]
pub(crate) fn copy_buffer_to_buffer(
    encoder: &mut wgpu::CommandEncoder,
    source: &wgpu::Buffer,
    destination: &wgpu::Buffer,
    size: u64,
)
    requires
        buffer_info(*source).device == recording(*old(encoder)).device,
        buffer_info(*destination).device == recording(*old(encoder)).device,
        buffer_info(*source).id != buffer_info(*destination).id,
        buffer_info(*source).usage.copy_src,
        buffer_info(*destination).usage.copy_dst,
        size % 4 == 0,
        size <= buffer_info(*source).size,
        size <= buffer_info(*destination).size,
    ensures
        recording(*final(encoder)) == (Recording {
            device: recording(*old(encoder)).device,
            commands: recording(*old(encoder)).commands.push(
                Command::Copy {
                    source: buffer_info(*source).id,
                    destination: buffer_info(*destination).id,
                    size: size as nat,
                },
            ),
        }),
{
    encoder.copy_buffer_to_buffer(source, 0, destination, 0, size)
}

/// `wgpu::CommandEncoder::finish`: what was recorded, ready to be submitted.
#[verifier::external_body]
pub(crate) fn finish(encoder: wgpu::CommandEncoder) -> (commands: wgpu::CommandBuffer)
    ensures
        recorded(commands) == recording(encoder),
{
    encoder.finish()
}

/// `wgpu::Queue::submit` on recorded commands: hands one command to the queue. None of the buffers
/// it touches may be mapped. What a shader makes of the buffers that it writes to is left open, for
/// it is the machine that runs it.
#[verifier::external_body]
pub(crate) fn submit(gpu: &mut Gpu, commands: wgpu::CommandBuffer) -> (receipt: wgpu::SubmissionIndex)
    requires
        old(gpu).paired(),
        recorded(commands).device == old(gpu).info().id,
        recorded(commands).commands.len() == 1,
        forall|id: nat| #[trigger]
            recorded(commands).commands[0].touches(id) ==> old(gpu).memory().contains_key(id)
                && !old(gpu).mapped().contains_key(id),
    ensures
        final(gpu).queue == old(gpu).queue,
        device_info(final(gpu).device) == device_info(old(gpu).device),
        recorded(commands).commands[0].effect(memory(old(gpu).device), memory(final(gpu).device)),
        mapped(final(gpu).device) == mapped(old(gpu).device),
        compiled(final(gpu).device) == compiled(old(gpu).device),
        dispatched(final(gpu).device) == (match recorded(commands).commands[0] {
            Command::Copy { .. } => dispatched(old(gpu).device),
            Command::Compute(dispatch) => dispatched(old(gpu).device).push(dispatch),
        }),
{
    gpu.queue.submit(std::iter::once(commands))
}

/// `wgpu::BufferSlice::map_async` for reading on the first `size` bytes of a buffer, and
/// `wgpu::Device::poll` until the given submission is done, which is when the callback of the
/// former has been called. Whether the mapping succeeds is up to the machine; an answer that never
/// came counts as a failure, and leaves the mapping open. No bytes change, and no other buffer is
/// mapped or unmapped.
#[verifier::external_body]
pub(crate) fn map_for_reading(
    gpu: &mut Gpu,
    buffer: &wgpu::Buffer,
    size: u64,
    receipt: wgpu::SubmissionIndex,
) -> (outcome: Result<(), wgpu::BufferAsyncError>)
    requires
        old(gpu).usable(*buffer),
        buffer_info(*buffer).usage.map_read,
        size % 4 == 0,
        0 < size <= buffer_info(*buffer).size,
    ensures
        final(gpu).queue == old(gpu).queue,
        device_info(final(gpu).device) == device_info(old(gpu).device),
        memory(final(gpu).device) == memory(old(gpu).device),
        dispatched(final(gpu).device) == dispatched(old(gpu).device),
        compiled(final(gpu).device) == compiled(old(gpu).device),
        outcome is Ok ==> mapped(final(gpu).device) == mapped(old(gpu).device).insert(
            buffer_info(*buffer).id,
            size as nat,
        ),
        outcome is Err ==> mapped(final(gpu).device) == mapped(old(gpu).device) || mapped(
            final(gpu).device,
        ) == mapped(old(gpu).device).insert(buffer_info(*buffer).id, 0),
{
    let (sender, receiver) = std::sync::mpsc::channel();
    buffer.slice(..size).map_async(wgpu::MapMode::Read, move |outcome| {
        let _ = sender.send(outcome);
    });
    let _ = gpu.device.poll(wgpu::PollType::Wait { submission_index: Some(receipt), timeout: None });
    receiver.try_recv().unwrap_or(Err(wgpu::BufferAsyncError))
}

/// `wgpu::BufferSlice::get_mapped_range` on the first `size` bytes of a mapped buffer, copied out:
/// the bytes the buffer holds.
#[verifier::external_body]
pub(crate) fn read_mapped(gpu: &Gpu, buffer: &wgpu::Buffer, size: u64) -> (bytes: Vec<u8>)
    requires
        gpu.owns(*buffer),
        gpu.mapped().contains_key(buffer_info(*buffer).id),
        gpu.mapped()[buffer_info(*buffer).id] == size,
        size > 0,
    ensures
        bytes@ == gpu.memory()[buffer_info(*buffer).id].take(size as int),
{
    buffer.slice(..size).get_mapped_range().to_vec()
}

/// `wgpu::Buffer::unmap`: the buffer is no longer mapped and keeps its bytes.
#[verifier::external_body]
pub(crate) fn unmap(gpu: &mut Gpu, buffer: &wgpu::Buffer)
    requires
        old(gpu).owns(*buffer),
        old(gpu).mapped().contains_key(buffer_info(*buffer).id),
    ensures
        final(gpu).queue == old(gpu).queue,
        device_info(final(gpu).device) == device_info(old(gpu).device),
        memory(final(gpu).device) == memory(old(gpu).device),
        dispatched(final(gpu).device) == dispatched(old(gpu).device),
        compiled(final(gpu).device) == compiled(old(gpu).device),
        mapped(final(gpu).device) == mapped(old(gpu).device).remove(buffer_info(*buffer).id),
{
    buffer.unmap()
}

/// `wgpu::Instance::new`: an instance that looks for adapters on the given backends. Which it finds
/// is up to the machine.
#[verifier::external_body]
pub(crate) fn open_instance(backends: Backends) -> (instance: wgpu::Instance)
    ensures
        instance_backends(instance) == backends,
{
    let mut flags = wgpu::Backends::empty();
    flags.set(wgpu::Backends::NOOP, backends.noop);
    flags.set(wgpu::Backends::VULKAN, backends.vulkan);
    flags.set(wgpu::Backends::METAL, backends.metal);
    flags.set(wgpu::Backends::DX12, backends.dx12);
    flags.set(wgpu::Backends::GL, backends.gl);
    flags.set(wgpu::Backends::BROWSER_WEBGPU, backends.browser_webgpu);
    wgpu::Instance::new(&wgpu::InstanceDescriptor { backends: flags, ..Default::default() })
}

/// `wgpu::Instance::request_adapter` without a surface, waited for with `pollster::block_on`: an
/// adapter on the backends of the instance, chosen by the preference. Whether there is one is up to
/// the machine.
#[verifier::external_body]
pub(crate) fn request_adapter(instance: &wgpu::Instance, power_preference: PowerPreference) -> (adapter:
    Result<wgpu::Adapter, wgpu::RequestAdapterError>)
    ensures
        adapter matches Ok(found) ==> adapter_info(found).backends == instance_backends(*instance)
            && adapter_info(found).power_preference == power_preference,
{
    pollster::block_on(instance.request_adapter(&wgpu::RequestAdapterOptions {
        power_preference: match power_preference {
            PowerPreference::NoPreference => wgpu::PowerPreference::None,
            PowerPreference::LowPower => wgpu::PowerPreference::LowPower,
            PowerPreference::HighPerformance => wgpu::PowerPreference::HighPerformance,
        },
        compatible_surface: None,
        force_fallback_adapter: false,
    }))
}

/// `wgpu::Adapter::limits`: what the physical device can do.
#[verifier::external_body]
pub(crate) fn limits_of_adapter(adapter: &wgpu::Adapter) -> (limits: wgpu::Limits)
    ensures
        limits_table(limits) == adapter_info(*adapter).limits,
{
    adapter.limits()
}

/// `wgpu::Adapter::features`: whether the physical device can take immediate data.
#[verifier::external_body]
pub(crate) fn features_of_adapter(adapter: &wgpu::Adapter) -> (features: DeviceFeatures)
    ensures
        features == adapter_info(*adapter).features,
{
    DeviceFeatures { immediates: adapter.features().contains(wgpu::Features::IMMEDIATES) }
}

/// `wgpu::Adapter::request_device`, waited for with `pollster::block_on`. Where it succeeds, the
/// device is new, is on the adapter, has the limits and the feature that were asked for, and the
/// queue is its own.
/// Whether it succeeds is up to the machine.
#[verifier::external_body]
pub(crate) fn request_device(adapter: &wgpu::Adapter, limits: wgpu::Limits, features: DeviceFeatures) -> (outcome:
    Result<(wgpu::Device, wgpu::Queue), wgpu::RequestDeviceError>)
    ensures
        outcome matches Ok((device, queue)) ==> {
            &&& queue_device(queue) == device_info(device).id
            &&& device_info(device).adapter == adapter_info(*adapter)
            &&& device_info(device).limits == limits_table(limits)
            &&& device_info(device).features == features
            &&& memory(device) == Map::<nat, Seq<u8>>::empty()
            &&& mapped(device) == Map::<nat, nat>::empty()
            &&& dispatched(device) == Seq::<Dispatch>::empty()
            &&& compiled(device) == Seq::<Program>::empty()
        },
{
    let mut required_features = wgpu::Features::empty();
    required_features.set(wgpu::Features::IMMEDIATES, features.immediates);
    pollster::block_on(adapter.request_device(&wgpu::DeviceDescriptor {
        required_features,
        required_limits: limits,
        ..Default::default()
    }))
}

/// `wgpu::Device::limits`: the limits the device was opened with.
#[verifier::external_body]
pub(crate) fn limits_of_device(gpu: &Gpu) -> (limits: DeviceLimits)
    ensures
        limits == device_info(gpu.device).limits,
{
    let l = gpu.device.limits();
    DeviceLimits {
        max_buffer_size: l.max_buffer_size,
        max_storage_buffer_binding_size: l.max_storage_buffer_binding_size,
        max_storage_buffers_per_shader_stage: l.max_storage_buffers_per_shader_stage,
        max_uniform_buffer_binding_size: l.max_uniform_buffer_binding_size,
        max_uniform_buffers_per_shader_stage: l.max_uniform_buffers_per_shader_stage,
        max_bind_groups: l.max_bind_groups, max_immediate_size: l.max_immediate_size,
        max_bindings_per_bind_group: l.max_bindings_per_bind_group,
        max_compute_workgroup_size_x: l.max_compute_workgroup_size_x,
        max_compute_workgroup_size_y: l.max_compute_workgroup_size_y,
        max_compute_workgroup_size_z: l.max_compute_workgroup_size_z,
        max_compute_invocations_per_workgroup: l.max_compute_invocations_per_workgroup,
        max_compute_workgroups_per_dimension: l.max_compute_workgroups_per_dimension,
    }
}

/// `wgpu::Device::features`: whether the device was opened with immediate data enabled.
#[verifier::external_body]
pub(crate) fn features_of_device(gpu: &Gpu) -> (features: DeviceFeatures)
    ensures
        features == device_info(gpu.device).features,
{
    DeviceFeatures { immediates: gpu.device.features().contains(wgpu::Features::IMMEDIATES) }
}

} // verus!
