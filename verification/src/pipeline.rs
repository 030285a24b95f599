//! Compute pipelines and what is bound to them.
//!
//! As in [`gpu`](crate::gpu), the calls into `wgpu` are in the small functions below, and the names
//! say what the handles that they give were made from. Where it is for `wgpu` to say whether it takes
//! a shader, the names say what its answer is, and the calls that ask it are made under an error
//! scope, so that a refusal comes back as a value. A device that is lost refuses nothing; of it nothing
//! is claimed.
use vstd::prelude::*;

use crate::gpu::{
    buffer_info, compiled, recorded, recording, Access, BufferInfo, Command, DeviceInfo,
    DeviceLimits, Dispatch, Gpu, LayoutEntry, Program, Recording,
};
use crate::kernel::Kernel;

verus! {

/// `wgpu`'s handle of a compiled shader text.
#[verifier::external_type_specification]
#[verifier::external_body]
pub struct ExShaderModule(wgpu::ShaderModule);

/// `wgpu`'s handle of the layout of a bind group.
#[verifier::external_type_specification]
#[verifier::external_body]
pub struct ExBindGroupLayout(wgpu::BindGroupLayout);

/// `wgpu`'s handle of the layout of a pipeline.
#[verifier::external_type_specification]
#[verifier::external_body]
pub struct ExPipelineLayout(wgpu::PipelineLayout);

/// `wgpu`'s handle of a compute pipeline.
#[verifier::external_type_specification]
#[verifier::external_body]
pub struct ExComputePipeline(wgpu::ComputePipeline);

/// `wgpu`'s handle of a group of bound buffers.
#[verifier::external_type_specification]
#[verifier::external_body]
pub struct ExBindGroup(wgpu::BindGroup);

/// What a shader module was compiled from, and for which device.
pub struct ModuleInfo {
    pub device: nat,
    pub source: Seq<char>,
}

/// What a bind group layout was made from, and for which device.
pub struct LayoutInfo {
    pub device: nat,
    pub entries: Seq<LayoutEntry>,
}

/// What a pipeline layout was made from, and for which device.
pub struct PipelineLayoutInfo {
    pub device: nat,
    pub entries: Seq<LayoutEntry>,
    pub immediate_size: u32,
}

/// What a pipeline was made from, and for which device. `id` is a number that no other pipeline of
/// the device shares: how many were compiled before it. Handles of one pipeline have all in common.
pub struct PipelineInfo {
    pub device: nat,
    pub id: nat,
    pub program: Program,
}

/// What a bind group was made from, and for which device: `buffers[slot]` is bound to the slot.
pub struct GroupInfo {
    pub device: nat,
    pub entries: Seq<LayoutEntry>,
    pub buffers: Map<u32, BufferInfo>,
}

/// What a shader module was compiled from.
pub uninterp spec fn module_info(module: wgpu::ShaderModule) -> ModuleInfo;

/// What a bind group layout was made from.
pub uninterp spec fn layout_info(layout: wgpu::BindGroupLayout) -> LayoutInfo;

/// What a pipeline layout was made from.
pub uninterp spec fn pipeline_layout_info(layout: wgpu::PipelineLayout) -> PipelineLayoutInfo;

/// What a pipeline was made from.
pub uninterp spec fn pipeline_info(pipeline: wgpu::ComputePipeline) -> PipelineInfo;

/// What a bind group was made from.
pub uninterp spec fn group_info(group: wgpu::BindGroup) -> GroupInfo;

/// The device's WGSL front end takes the text.
pub uninterp spec fn parses(device: nat, source: Seq<char>) -> bool;

/// The device makes a pipeline of the program, whose text it takes.
pub uninterp spec fn links(device: nat, program: Program) -> bool;

/// Buffers of these sizes, by slot, are large enough for a dispatch of the program on the device.
pub uninterp spec fn suffices(device: nat, program: Program, sizes: Map<u32, u64>) -> bool;

/// A buffer and the slot that all of it is bound to.
#[derive(Clone, Copy)]
pub struct BoundBuffer<'a> {
    pub slot: u32,
    pub buffer: &'a wgpu::Buffer,
}

/// What is bound to each slot.
pub open spec fn bound(entries: Seq<BoundBuffer<'_>>) -> Map<u32, BufferInfo>
    decreases entries.len(),
{
    if entries.len() == 0 {
        Map::empty()
    } else {
        bound(entries.drop_last()).insert(entries.last().slot, buffer_info(*entries.last().buffer))
    }
}

/// The slots of a layout.
pub open spec fn slots(entries: Seq<LayoutEntry>) -> Set<u32> {
    entries.map_values(|e: LayoutEntry| e.slot).to_set()
}

/// The number of entries with one of the accesses of a storage buffer.
pub open spec fn storage_count(entries: Seq<LayoutEntry>) -> nat
    decreases entries.len(),
{
    if entries.len() == 0 {
        0
    } else {
        storage_count(entries.drop_last()) + if entries.last().access == Access::Uniform {
            0nat
        } else {
            1nat
        }
    }
}

/// A bind group layout with these entries can be had on a device with these limits: the slots are
/// distinct and within the limit, and so is the number of buffers of each sort.
pub open spec fn layout_fits(entries: Seq<LayoutEntry>, limits: DeviceLimits) -> bool {
    &&& forall|i: int|
        0 <= i < entries.len() ==> (#[trigger] entries[i]).slot < limits.max_bindings_per_bind_group
    &&& forall|i: int, j: int|
        0 <= i < j < entries.len() ==> (#[trigger] entries[i]).slot != (#[trigger] entries[j]).slot
    &&& storage_count(entries) <= limits.max_storage_buffers_per_shader_stage
    &&& entries.len() - storage_count(entries) <= limits.max_uniform_buffers_per_shader_stage
}

/// Whether a bind group layout with these entries can be had on a device with these limits.
pub fn allows_layout(entries: &Vec<LayoutEntry>, limits: DeviceLimits) -> (allowed: bool)
    ensures
        allowed == layout_fits(entries@, limits),
{
    let mut storage: u64 = 0;
    for i in 0..entries.len()
        invariant
            storage == storage_count(entries@.take(i as int)),
            storage <= i,
            forall|j: int|
                0 <= j < i ==> (#[trigger] entries@[j]).slot < limits.max_bindings_per_bind_group,
            forall|j: int, k: int|
                0 <= j < k < i ==> (#[trigger] entries@[j]).slot != (#[trigger] entries@[k]).slot,
    {
        if entries[i].slot >= limits.max_bindings_per_bind_group {
            return false;
        }
        for j in 0..i
            invariant
                i < entries@.len(),
                forall|k: int|
                    0 <= k < j ==> (#[trigger] entries@[k]).slot != entries@[i as int].slot,
        {
            if entries[j].slot == entries[i].slot {
                assert(entries@[j as int].slot == entries@[i as int].slot);
                return false;
            }
        }
        assert(entries@.take(i + 1).drop_last() =~= entries@.take(i as int));
        if entries[i].access != Access::Uniform {
            storage = storage + 1;
        }
    }
    assert(entries@.take(entries@.len() as int) =~= entries@);
    storage <= limits.max_storage_buffers_per_shader_stage as u64 && entries.len() as u64 - storage
        <= limits.max_uniform_buffers_per_shader_stage as u64
}

/// The layout of the program can be had on the device, and so can its immediate data.
pub open spec fn has_room(info: DeviceInfo, program: Program) -> bool {
    &&& layout_fits(program.entries, info.limits)
    &&& info.limits.max_bind_groups >= 1
    &&& program.immediate_size > 0 ==> info.features.immediates
    &&& program.immediate_size <= info.limits.max_immediate_size
    &&& program.immediate_size % 4 == 0
}

/// The program is that of a shader of this crate, and the device can run it.
pub open spec fn is_own(info: DeviceInfo, program: Program) -> bool {
    exists|kernel: Kernel| #[trigger]
        kernel.program(info.features) == program && kernel.runs_on(info.limits, info.features)
}

/// The device can compile the program.
pub open spec fn compiles(info: DeviceInfo, program: Program) -> bool {
    &&& has_room(info, program)
    &&& is_own(info, program) || parses(info.id, program.source) && links(info.id, program)
}

/// The buffer can be bound to a slot with the access on a device with these limits.
pub open spec fn suits(buffer: BufferInfo, access: Access, limits: DeviceLimits) -> bool {
    &&& buffer.size > 0
    &&& match access {
        Access::Uniform => buffer.usage.uniform && buffer.size
            <= limits.max_uniform_buffer_binding_size,
        _ => buffer.usage.storage && buffer.size % 4 == 0 && buffer.size
            <= limits.max_storage_buffer_binding_size,
    }
}

/// The sizes of what is bound to each slot.
pub open spec fn sizes_of(buffers: Map<u32, BufferInfo>) -> Map<u32, u64> {
    buffers.map_values(|info: BufferInfo| info.size)
}

/// The numbers of the buffers that are bound to each slot.
pub open spec fn ids_of(buffers: Map<u32, BufferInfo>) -> Map<u32, nat> {
    buffers.map_values(|info: BufferInfo| info.id)
}

/// The program is that of a shader of this crate, no buffer is smaller than an element of its
/// arrays, and the one for its parameters, where it has one, has room for them.
pub open spec fn holds_elements(
    info: DeviceInfo,
    program: Program,
    sizes: Map<u32, u64>,
) -> bool {
    exists|kernel: Kernel| #[trigger]
        kernel.program(info.features) == program && forall|slot: u32| #[trigger]
            sizes.contains_key(slot) ==> sizes[slot] >= kernel.element_size() && (slot
                == kernel.binding_count() ==> sizes[slot] >= kernel.immediate_size())
}

/// The buffers are large enough for a dispatch of the program.
pub open spec fn dispatches(info: DeviceInfo, program: Program, sizes: Map<u32, u64>) -> bool {
    holds_elements(info, program, sizes) || suffices(info.id, program, sizes)
}

/// `wgpu::Device::create_shader_module` on WGSL, under error scopes. The texts of this crate's
/// shaders, with the declarations of what they bind in front, are taken by every device that can
/// run them; whether another text is taken is for the front end of the device to say.
#[verifier::external_body]
pub(crate) fn create_shader_module(gpu: &Gpu, label: &str, source: &str) -> (outcome: Result<
    wgpu::ShaderModule,
    wgpu::Error,
>)
    ensures
        outcome is Ok <==> parses(gpu.info().id, source@),
        (exists|program: Program| #[trigger]
            is_own(gpu.info(), program) && program.source == source@) ==> outcome is Ok,
        outcome matches Ok(module) ==> module_info(module) == (ModuleInfo {
            device: gpu.info().id,
            source: source@,
        }),
{
    let validation = gpu.device.push_error_scope(wgpu::ErrorFilter::Validation);
    let internal = gpu.device.push_error_scope(wgpu::ErrorFilter::Internal);
    let module = gpu.device.create_shader_module(wgpu::ShaderModuleDescriptor {
        label: Some(label),
        source: wgpu::ShaderSource::Wgsl(source.into()),
    });
    let failure = pollster::block_on(internal.pop());
    pollster::block_on(validation.pop()).or(failure).map_or(Ok(module), Err)
}

/// `wgpu::Device::create_bind_group_layout` with buffers of the compute stage in the given slots.
#[verifier::external_body]
pub(crate) fn create_bind_group_layout(gpu: &Gpu, label: &str, entries: &Vec<LayoutEntry>) -> (layout:
    wgpu::BindGroupLayout)
    requires
        layout_fits(entries@, gpu.limits()),
    ensures
        layout_info(layout) == (LayoutInfo { device: gpu.info().id, entries: entries@ }),
{
    let entries: Vec<_> = entries.iter().map(|e| wgpu::BindGroupLayoutEntry {
        binding: e.slot,
        visibility: wgpu::ShaderStages::COMPUTE,
        ty: wgpu::BindingType::Buffer {
            ty: match e.access {
                Access::Read => wgpu::BufferBindingType::Storage { read_only: true },
                Access::Write => wgpu::BufferBindingType::Storage { read_only: false },
                Access::Uniform => wgpu::BufferBindingType::Uniform,
            },
            has_dynamic_offset: false, min_binding_size: None,
        },
        count: None,
    }).collect();
    let label = Some(label);
    gpu.device.create_bind_group_layout(&wgpu::BindGroupLayoutDescriptor { label, entries: &entries })
}

/// `wgpu::Device::create_pipeline_layout` with one bind group and `immediate_size` bytes of
/// immediate data, which is a multiple of four within the device's limit.
#[verifier::external_body]
pub(crate) fn create_pipeline_layout(
    gpu: &Gpu,
    label: &str,
    layout: &wgpu::BindGroupLayout,
    immediate_size: u32,
) -> (pipeline_layout: wgpu::PipelineLayout)
    requires
        layout_info(*layout).device == gpu.info().id,
        layout_fits(layout_info(*layout).entries, gpu.limits()),
        gpu.limits().max_bind_groups >= 1,
        immediate_size > 0 ==> gpu.info().features.immediates,
        immediate_size <= gpu.limits().max_immediate_size,
        immediate_size % 4 == 0,
    ensures
        pipeline_layout_info(pipeline_layout) == (PipelineLayoutInfo {
            device: gpu.info().id,
            entries: layout_info(*layout).entries,
            immediate_size,
        }),
{
    gpu.device.create_pipeline_layout(&wgpu::PipelineLayoutDescriptor {
        label: Some(label),
        bind_group_layouts: &[layout],
        immediate_size,
    })
}

/// What a pipeline of a module and a layout is built from.
pub open spec fn linked(layout: wgpu::PipelineLayout, module: wgpu::ShaderModule) -> Program {
    Program {
        source: module_info(module).source,
        entries: pipeline_layout_info(layout).entries,
        immediate_size: pipeline_layout_info(layout).immediate_size,
    }
}

/// `wgpu::Device::create_compute_pipeline` on the entry point `main`, under error scopes. A shader of
/// this crate is compiled against its own layout on every device that can run it; whether another
/// program is compiled is for the device to say. Each pipeline is a new one, other than all before.
#[verifier::external_body]
pub(crate) fn create_compute_pipeline(
    gpu: &mut Gpu,
    label: &str,
    layout: &wgpu::PipelineLayout,
    module: &wgpu::ShaderModule,
) -> (outcome: Result<wgpu::ComputePipeline, wgpu::Error>)
    requires
        pipeline_layout_info(*layout).device == old(gpu).info().id,
        module_info(*module).device == old(gpu).info().id,
    ensures
        outcome is Ok <==> links(old(gpu).info().id, linked(*layout, *module)),
        is_own(old(gpu).info(), linked(*layout, *module)) ==> outcome is Ok,
        outcome matches Ok(pipeline) ==> pipeline_info(pipeline) == (PipelineInfo {
            device: old(gpu).info().id,
            id: compiled(old(gpu).device).len(),
            program: linked(*layout, *module),
        }),
        compiled(final(gpu).device) == if outcome is Ok {
            compiled(old(gpu).device).push(linked(*layout, *module))
        } else {
            compiled(old(gpu).device)
        },
        final(gpu).queue == old(gpu).queue,
        final(gpu).info() == old(gpu).info(),
        final(gpu).memory() == old(gpu).memory(),
        final(gpu).mapped() == old(gpu).mapped(),
        final(gpu).dispatched() == old(gpu).dispatched(),
{
    let validation = gpu.device.push_error_scope(wgpu::ErrorFilter::Validation);
    let internal = gpu.device.push_error_scope(wgpu::ErrorFilter::Internal);
    let pipeline = gpu.device.create_compute_pipeline(&wgpu::ComputePipelineDescriptor {
        label: Some(label),
        layout: Some(layout),
        module,
        entry_point: Some("main"),
        compilation_options: Default::default(),
        cache: None,
    });
    let failure = pollster::block_on(internal.pop());
    pollster::block_on(validation.pop()).or(failure).map_or(Ok(pipeline), Err)
}

/// `ToString::to_string` of `wgpu::Error`: a text for people, of which nothing is claimed.
#[verifier::external_body]
pub(crate) fn error_text(error: &wgpu::Error) -> (text: String) {
    error.to_string()
}

/// `Clone::clone` of `wgpu::ComputePipeline`: another handle of the same pipeline, the one with its
/// number.
#[verifier::external_body]
pub(crate) fn share_pipeline(pipeline: &wgpu::ComputePipeline) -> (same: wgpu::ComputePipeline)
    ensures
        pipeline_info(same) == pipeline_info(*pipeline),
{
    pipeline.clone()
}

/// `wgpu::ComputePipeline::get_bind_group_layout` of group 0: the layout that the pipeline was
/// made with.
#[verifier::external_body]
pub(crate) fn get_bind_group_layout(pipeline: &wgpu::ComputePipeline) -> (layout: wgpu::BindGroupLayout)
    ensures
        layout_info(layout) == (LayoutInfo {
            device: pipeline_info(*pipeline).device,
            entries: pipeline_info(*pipeline).program.entries,
        }),
{
    pipeline.get_bind_group_layout(0)
}

/// `wgpu::Device::create_bind_group` with the whole of each buffer (`as_entire_binding`) in its
/// slot. The slots are those of the layout, each once, and each buffer can be bound to its slot.
#[verifier::external_body]
pub(crate) fn create_bind_group(
    gpu: &Gpu,
    label: &str,
    layout: &wgpu::BindGroupLayout,
    entries: &Vec<BoundBuffer<'_>>,
) -> (group: wgpu::BindGroup)
    requires
        layout_info(*layout).device == gpu.info().id,
        entries@.len() == layout_info(*layout).entries.len(),
        bound(entries@).dom() == slots(layout_info(*layout).entries),
        forall|i: int, j: int|
            0 <= i < j < entries@.len() ==> (#[trigger] entries@[i]).slot != (
            #[trigger] entries@[j]).slot,
        forall|i: int|
            0 <= i < layout_info(*layout).entries.len() ==> {
                let entry = #[trigger] layout_info(*layout).entries[i];
                &&& bound(entries@)[entry.slot].device == gpu.info().id
                &&& suits(bound(entries@)[entry.slot], entry.access, gpu.limits())
            },
    ensures
        group_info(group) == (GroupInfo {
            device: gpu.info().id,
            entries: layout_info(*layout).entries,
            buffers: bound(entries@),
        }),
{
    let entries: Vec<_> = entries.iter().map(|e| wgpu::BindGroupEntry {
        binding: e.slot,
        resource: e.buffer.as_entire_binding(),
    }).collect();
    gpu.device.create_bind_group(&wgpu::BindGroupDescriptor {
        label: Some(label),
        layout,
        entries: &entries,
    })
}

/// `wgpu::CommandEncoder::begin_compute_pass`, on the pass `set_pipeline`, `set_bind_group` of group
/// 0, `set_immediates` at offset 0 where there are any, and `dispatch_workgroups`, and then
/// `wgpu::CommandEncoder::finish`, which reports what was wrong with any of these, under an error
/// scope. No buffer may be bound both for writing and in another way, and the grid has to be within
/// the device's limit. The buffers have to be as large as the shader's variables: those of this
/// crate's shaders are arrays, of which one element is enough, and the parameters; of other shaders
/// it is for the device to say.
#[verifier::external_body]
pub(crate) fn record_dispatch(
    gpu: &Gpu,
    encoder: wgpu::CommandEncoder,
    pipeline: &wgpu::ComputePipeline,
    group: &wgpu::BindGroup,
    immediates: Option<&[u8]>,
    groups: (u32, u32, u32),
) -> (outcome: Result<wgpu::CommandBuffer, wgpu::Error>)
    requires
        recording(encoder) == (Recording { device: gpu.info().id, commands: Seq::empty() }),
        pipeline_info(*pipeline).device == gpu.info().id,
        group_info(*group).device == gpu.info().id,
        group_info(*group).entries == pipeline_info(*pipeline).program.entries,
        forall|i: int, j: int|
            #![trigger group_info(*group).entries[i], group_info(*group).entries[j]]
            0 <= i < group_info(*group).entries.len() && 0 <= j < group_info(*group).entries.len()
                && i != j && group_info(*group).entries[i].access == Access::Write
                ==> group_info(*group).buffers[group_info(*group).entries[i].slot].id != group_info(
                *group,
            ).buffers[group_info(*group).entries[j].slot].id,
        pipeline_info(*pipeline).program.immediate_size == (match immediates {
            Some(bytes) => bytes@.len(),
            None => 0,
        }),
        groups.0 <= gpu.limits().max_compute_workgroups_per_dimension,
        groups.1 <= gpu.limits().max_compute_workgroups_per_dimension,
        groups.2 <= gpu.limits().max_compute_workgroups_per_dimension,
    ensures
        outcome is Ok <==> suffices(
            gpu.info().id,
            pipeline_info(*pipeline).program,
            sizes_of(group_info(*group).buffers),
        ),
        holds_elements(
            gpu.info(),
            pipeline_info(*pipeline).program,
            sizes_of(group_info(*group).buffers),
        ) ==> outcome is Ok,
        outcome matches Ok(commands) ==> recorded(commands) == (Recording {
            device: gpu.info().id,
            commands: seq![
                Command::Compute(
                    Dispatch {
                        program: pipeline_info(*pipeline).program,
                        buffers: ids_of(group_info(*group).buffers),
                        immediates: (match immediates {
                            Some(bytes) => bytes@,
                            None => Seq::empty(),
                        }),
                        groups,
                    },
                ),
            ],
        }),
{
    let mut encoder = encoder;
    let scope = gpu.device.push_error_scope(wgpu::ErrorFilter::Validation);
    let mut pass = encoder.begin_compute_pass(&Default::default());
    pass.set_pipeline(pipeline);
    pass.set_bind_group(0, group, &[]);
    immediates.map(|bytes| pass.set_immediates(0, bytes));
    pass.dispatch_workgroups(groups.0, groups.1, groups.2);
    drop(pass);
    let commands = encoder.finish();
    pollster::block_on(scope.pop()).map_or(Ok(commands), Err)
}

} // verus!
