//! The device and its compiled pipelines.
use std::collections::HashMap;

use vstd::prelude::*;
use vstd::string::*;

use crate::error::WgpuError;
use crate::gpu::{
    device_info, features_of_adapter, features_of_device, limits_of_adapter, limits_of_device,
    open_instance, queue_device, request_adapter, request_device, Access, AdapterInfo, Backends,
    DeviceFeatures, DeviceLimits, Dispatch, Gpu, LayoutEntry, PowerPreference, Program,
};
use crate::pipeline::{
    allows_layout, compiles, create_bind_group_layout, create_compute_pipeline,
    create_pipeline_layout, create_shader_module, error_text, pipeline_info, share_pipeline,
    PipelineInfo,
};
use crate::shader::{debug_text, next_slot, program_of, with_uniform, Binding, Key, PipelineKey, WgslShader};

verus! {

broadcast use vstd::std_specs::hash::group_hash_axioms;

/// Configuration options for opening a [`WgpuDevice`].
#[derive(Clone, Copy, Debug)]
pub struct DeviceOptions {
    pub backend: Option<Backends>,
    pub power_preference: PowerPreference,
    pub workgroup_size: (u32, u32),
    pub staging_pool_size: usize,
}

impl Default for DeviceOptions {
    fn default() -> (options: Self)
        ensures
            options.backend is None,
            options.power_preference == PowerPreference::HighPerformance,
            options.workgroup_size == (8u32, 8u32),
            options.staging_pool_size == 64 * 1024 * 1024,
    {
        DeviceOptions {
            backend: None,
            power_preference: PowerPreference::HighPerformance,
            workgroup_size: (8, 8),
            staging_pool_size: 64 * 1024 * 1024,
        }
    }
}

impl DeviceOptions {
    /// The backends to look for an adapter on: those that were asked for, or else those of the
    /// desktop platforms.
    pub open spec fn chosen_backends(self) -> Backends {
        match self.backend {
            Some(backends) => backends,
            None => Backends {
                noop: false,
                vulkan: true,
                metal: true,
                dx12: true,
                gl: false,
                browser_webgpu: false,
            },
        }
    }

    /// The backends to look for an adapter on.
    pub fn backends(&self) -> (backends: Backends)
        ensures
            backends == self.chosen_backends(),
    {
        match self.backend {
            Some(backends) => backends,
            None => Backends {
                noop: false,
                vulkan: true,
                metal: true,
                dx12: true,
                gl: false,
                browser_webgpu: false,
            },
        }
    }
}

/// The adapter was asked for as the options say, and all it can do was asked of the device.
pub open spec fn opened_on(
    adapter: AdapterInfo,
    options: DeviceOptions,
    limits: DeviceLimits,
    features: DeviceFeatures,
) -> bool {
    &&& adapter.backends == options.chosen_backends()
    &&& adapter.power_preference == options.power_preference
    &&& adapter.limits == limits
    &&& adapter.features == features
}

// ── Kept pipelines ───────────────────────────────────────────────────────────

/// The pipeline that is kept under the key, or else the one that is made for it.
pub open spec fn found(
    cache: Map<Key, PipelineInfo>,
    key: Key,
    made: PipelineInfo,
) -> PipelineInfo {
    if cache.contains_key(key) {
        cache[key]
    } else {
        made
    }
}

/// The pipelines that are kept and the programs that were compiled, once the pipeline of a key was
/// looked up: only what is not kept is compiled, and then kept.
pub open spec fn looked_up(
    cache: Map<Key, PipelineInfo>,
    compiled: Seq<Program>,
    key: Key,
    made: PipelineInfo,
) -> (Map<Key, PipelineInfo>, Seq<Program>) {
    if cache.contains_key(key) {
        (cache, compiled)
    } else {
        (cache.insert(key, made), compiled.push(made.program))
    }
}

/// The pipeline that compiling a program gives: it has the next number.
pub open spec fn newest(device: nat, compiled: Seq<Program>, program: Program) -> PipelineInfo {
    PipelineInfo { device, id: compiled.len(), program }
}

/// No two of the pipelines that are kept are one, and each was compiled.
pub open spec fn numbered(cache: Map<Key, PipelineInfo>, compiled: Seq<Program>) -> bool {
    &&& forall|key: Key| #[trigger] cache.contains_key(key) ==> cache[key].id < compiled.len()
    &&& forall|a: Key, b: Key|
        #![trigger cache[a], cache[b]]
        cache.contains_key(a) && cache.contains_key(b) && a != b ==> cache[a].id != cache[b].id
}

/// What is kept and compiled after any number of lookups, one after the other.
pub open spec fn all_looked_up(
    cache: Map<Key, PipelineInfo>,
    compiled: Seq<Program>,
    device: nat,
    lookups: Seq<(Key, Program)>,
) -> (Map<Key, PipelineInfo>, Seq<Program>)
    decreases lookups.len(),
{
    if lookups.len() == 0 {
        (cache, compiled)
    } else {
        let (cache1, compiled1) = all_looked_up(cache, compiled, device, lookups.drop_last());
        let (key, program) = lookups.last();
        looked_up(cache1, compiled1, key, newest(device, compiled1, program))
    }
}

/// A pipeline is compiled once per key: whatever keys are looked up in between, and with whatever
/// shader, looking a key up again compiles nothing, changes nothing and finds the very pipeline of
/// the first time. Nothing that is kept is replaced, each other key has a pipeline of its own, and
/// what is compiled in between is one pipeline for each new key, at most.
pub proof fn law_pipelines_are_compiled_once(
    cache: Map<Key, PipelineInfo>,
    compiled: Seq<Program>,
    device: nat,
    key: Key,
    program: Program,
    between: Seq<(Key, Program)>,
    again: Program,
)
    requires
        numbered(cache, compiled),
    ensures
        ({
            let made = newest(device, compiled, program);
            let (cache1, compiled1) = looked_up(cache, compiled, key, made);
            let (cache2, compiled2) = all_looked_up(cache1, compiled1, device, between);
            let remade = newest(device, compiled2, again);
            &&& cache1.contains_key(key) && cache1[key] == found(cache, key, made)
            &&& compiled1.len() <= compiled.len() + 1
            &&& compiled2.len() <= compiled1.len() + between.len()
            &&& found(cache2, key, remade) == found(cache, key, made)
            &&& looked_up(cache2, compiled2, key, remade) == (cache2, compiled2)
            &&& numbered(cache2, compiled2)
            &&& forall|k: Key| #[trigger]
                cache1.contains_key(k) ==> cache2.contains_key(k) && cache2[k] == cache1[k]
            &&& forall|k: Key| #[trigger]
                cache2.contains_key(k) && k != key ==> cache2[k].id != cache2[key].id
        }),
    decreases between.len(),
{
    let made = newest(device, compiled, program);
    let (cache1, compiled1) = looked_up(cache, compiled, key, made);
    lemma_numbered(cache, compiled, device, key, program);
    if between.len() > 0 {
        let rest = between.drop_last();
        law_pipelines_are_compiled_once(cache, compiled, device, key, program, rest, again);
        let (cache2, compiled2) = all_looked_up(cache1, compiled1, device, rest);
        lemma_numbered(cache2, compiled2, device, between.last().0, between.last().1);
    }
    let (cache2, compiled2) = all_looked_up(cache1, compiled1, device, between);
    assert forall|k: Key| #[trigger] cache2.contains_key(k) && k != key implies cache2[k].id
        != cache2[key].id by {
        assert(cache1.contains_key(key));
    }
}

/// Looking a pipeline up keeps them apart.
proof fn lemma_numbered(
    cache: Map<Key, PipelineInfo>,
    compiled: Seq<Program>,
    device: nat,
    key: Key,
    program: Program,
)
    requires
        numbered(cache, compiled),
    ensures
        ({
            let made = newest(device, compiled, program);
            let (cache1, compiled1) = looked_up(cache, compiled, key, made);
            numbered(cache1, compiled1)
        }),
{
    let made = newest(device, compiled, program);
    let (cache1, compiled1) = looked_up(cache, compiled, key, made);
    assert forall|k: Key| #[trigger] cache1.contains_key(k) implies cache1[k].id
        < compiled1.len() by {
        assert(cache.contains_key(k) || k == key);
    }
    assert forall|a: Key, b: Key|
        #![trigger cache1[a], cache1[b]]
        cache1.contains_key(a) && cache1.contains_key(b) && a != b implies cache1[a].id
        != cache1[b].id by {
        if cache.contains_key(a) && cache.contains_key(b) {
            assert(cache[a].id != cache[b].id);
        }
    }
}

/// The number that the pipelines of a key are kept under: all of the key but the name.
pub open spec fn packed(key: Key) -> u64 {
    (key.pixel_bytes + 0x100 * key.channels + 0x1_0000 * key.wg_x + 0x100_0000 * key.wg_y
        + 0x1_0000_0000 * key.variant) as u64
}

/// The pipelines that are kept under the number of a key.
pub open spec fn bucket_of(
    pipelines: Map<u64, Vec<(PipelineKey, wgpu::ComputePipeline)>>,
    key: Key,
) -> Seq<(PipelineKey, wgpu::ComputePipeline)> {
    if pipelines.contains_key(packed(key)) {
        pipelines[packed(key)]@
    } else {
        Seq::empty()
    }
}

/// The pipeline at place `i` is kept under `key`.
pub open spec fn kept_at(
    bucket: Seq<(PipelineKey, wgpu::ComputePipeline)>,
    i: int,
    key: Key,
) -> bool {
    0 <= i < bucket.len() && bucket[i].0@ == key
}

/// What the pipelines were made from, by key.
pub open spec fn by_key(pipelines: Map<u64, Vec<(PipelineKey, wgpu::ComputePipeline)>>) -> Map<
    Key,
    PipelineInfo,
> {
    Map::new(
        |key: Key| exists|i: int| kept_at(bucket_of(pipelines, key), i, key),
        |key: Key|
            pipeline_info(
                bucket_of(pipelines, key)[choose|i: int|
                    kept_at(bucket_of(pipelines, key), i, key)].1,
            ),
    )
}

/// No key occurs twice, and all pipelines are of the device.
pub open spec fn in_bucket(bucket: Seq<(PipelineKey, wgpu::ComputePipeline)>, device: nat) -> bool {
    &&& forall|i: int, j: int|
        0 <= i < j < bucket.len() ==> (#[trigger] bucket[i]).0@ != (#[trigger] bucket[j]).0@
    &&& forall|i: int|
        0 <= i < bucket.len() ==> pipeline_info((#[trigger] bucket[i]).1).device == device
}

/// An open device and the pipelines compiled for it.
pub struct WgpuDevice {
    pub gpu: Gpu,
    pub limits: DeviceLimits,
    pub features: DeviceFeatures,
    pub workgroup_size: (u32, u32),
    pub pipeline_cache: HashMap<u64, Vec<(PipelineKey, wgpu::ComputePipeline)>>,
}

impl WgpuDevice {
    /// The pipelines that are kept, by key.
    pub open spec fn cache(self) -> Map<Key, PipelineInfo> {
        by_key(self.pipeline_cache@)
    }

    /// The record of the device is true, no key occurs twice, and what is kept are pipelines of the
    /// device, no two of them one.
    pub open spec fn wf(self) -> bool {
        &&& self.gpu.paired()
        &&& self.limits == self.gpu.limits()
        &&& self.features == self.gpu.info().features
        &&& forall|b: u64| #[trigger]
            self.pipeline_cache@.contains_key(b) ==> in_bucket(
                self.pipeline_cache@[b]@,
                self.gpu.info().id,
            )
        &&& numbered(self.cache(), self.gpu.compiled())
    }

    /// All but the pipelines is as `before`.
    pub open spec fn same_setup(self, before: WgpuDevice) -> bool {
        &&& self.limits == before.limits
        &&& self.features == before.features
        &&& self.workgroup_size == before.workgroup_size
        &&& self.gpu.same_device(before.gpu)
    }

    /// What is kept under a key is a pipeline of the device.
    pub proof fn lemma_cached(self, key: Key)
        requires
            self.wf(),
            self.cache().contains_key(key),
        ensures
            self.cache()[key].device == self.gpu.info().id,
    {
        let bucket = bucket_of(self.pipeline_cache@, key);
        let i = choose|i: int| kept_at(bucket, i, key);
        assert(kept_at(bucket, i, key));
    }

    /// Takes over a device and its queue.
    pub fn from_parts(device: wgpu::Device, queue: wgpu::Queue, options: DeviceOptions) -> (this: Self)
        requires
            queue_device(queue) == device_info(device).id,
        ensures
            this.wf(),
            this.gpu == (Gpu { device, queue }),
            this.limits == device_info(device).limits,
            this.features == device_info(device).features,
            this.workgroup_size == options.workgroup_size,
            this.cache() == Map::<Key, PipelineInfo>::empty(),
    {
        let gpu = Gpu { device, queue };
        let limits = limits_of_device(&gpu);
        let features = features_of_device(&gpu);
        let this = WgpuDevice {
            gpu,
            limits,
            features,
            workgroup_size: options.workgroup_size,
            pipeline_cache: HashMap::new(),
        };
        assert(this.cache() =~= Map::<Key, PipelineInfo>::empty());
        this
    }

    /// Takes over what came of asking for an adapter and then for a device on it. Without an adapter
    /// the error names the backends that were asked for; without a device it is that of the request.
    pub fn from_requests(
        options: DeviceOptions,
        requested: Result<
            Result<(wgpu::Device, wgpu::Queue), wgpu::RequestDeviceError>,
            wgpu::RequestAdapterError,
        >,
    ) -> (outcome: Result<Self, WgpuError>)
        requires
            requested matches Ok(Ok((device, queue))) ==> queue_device(queue) == device_info(
                device,
            ).id,
        ensures
            match requested {
                Err(_) => outcome == Err::<Self, _>(WgpuError::NoAdapter(options.backend)),
                Ok(Err(error)) => outcome == Err::<Self, _>(WgpuError::DeviceCreation(error)),
                Ok(Ok((device, queue))) => outcome matches Ok(this) && {
                    &&& this.wf()
                    &&& this.gpu == (Gpu { device, queue })
                    &&& this.limits == device_info(device).limits
                    &&& this.features == device_info(device).features
                    &&& this.workgroup_size == options.workgroup_size
                    &&& this.cache() == Map::<Key, PipelineInfo>::empty()
                },
            },
    {
        match requested {
            Err(_) => Err(WgpuError::NoAdapter(options.backend)),
            Ok(Err(error)) => Err(WgpuError::DeviceCreation(error)),
            Ok(Ok((device, queue))) => Ok(Self::from_parts(device, queue, options)),
        }
    }

    /// Opens a device: asks for an adapter on the backends of the options, and asks that for a
    /// device with all its limits, and with immediate data where it has that.
    /// [`WgpuDevice::from_requests`] says which answer gives which outcome.
    pub fn new(options: DeviceOptions) -> (outcome: Result<Self, WgpuError>)
        ensures
            match outcome {
                Ok(this) => {
                    &&& this.wf()
                    &&& this.workgroup_size == options.workgroup_size
                    &&& this.cache() == Map::<Key, PipelineInfo>::empty()
                    &&& this.gpu.memory() == Map::<nat, Seq<u8>>::empty()
                    &&& this.gpu.mapped() == Map::<nat, nat>::empty()
                    &&& this.gpu.dispatched() == Seq::<Dispatch>::empty()
                    &&& this.gpu.compiled() == Seq::<Program>::empty()
                    &&& opened_on(this.gpu.info().adapter, options, this.limits, this.features)
                },
                Err(WgpuError::NoAdapter(backend)) => backend == options.backend,
                Err(error) => error is DeviceCreation,
            },
    {
        let instance = open_instance(options.backends());
        let requested = match request_adapter(&instance, options.power_preference) {
            Ok(adapter) => Ok(
                request_device(
                    &adapter,
                    limits_of_adapter(&adapter),
                    features_of_adapter(&adapter),
                ),
            ),
            Err(error) => Err(error),
        };
        Self::from_requests(options, requested)
    }

    /// The number that the pipelines of a key are kept under.
    fn pack(key: &PipelineKey) -> (b: u64)
        ensures
            b == packed(key@),
    {
        key.pixel_bytes as u64 + 0x100 * key.channels as u64 + 0x1_0000 * key.wg_x as u64
            + 0x100_0000 * key.wg_y as u64 + 0x1_0000_0000 * key.variant as u64
    }

    /// The pipeline that is kept under a key: its number leads to the few that differ in name only.
    fn find(&self, key: &PipelineKey) -> (pipeline: Option<wgpu::ComputePipeline>)
        requires
            self.wf(),
        ensures
            match pipeline {
                Some(pipeline) => self.cache().contains_key(key@) && pipeline_info(pipeline)
                    == self.cache()[key@],
                None => !self.cache().contains_key(key@),
            },
    {
        if let Some(bucket) = self.pipeline_cache.get(&Self::pack(key)) {
            for i in 0..bucket.len()
                invariant
                    bucket@ == bucket_of(self.pipeline_cache@, key@),
                    in_bucket(bucket@, self.gpu.info().id),
                    forall|j: int| 0 <= j < i ==> !kept_at(bucket@, j, key@),
            {
                if bucket[i].0 == *key {
                    assert(kept_at(bucket@, i as int, key@));
                    assert forall|j: int| kept_at(bucket@, j, key@) implies j == i by {
                        assert(bucket@[i as int].0@ == bucket@[j].0@);
                    }
                    return Some(share_pipeline(&bucket[i].1));
                }
            }
        }
        None
    }

    /// Keeps a pipeline under a key that nothing is kept under.
    fn keep(&mut self, key: PipelineKey, pipeline: wgpu::ComputePipeline)
        requires
            old(self).wf(),
            !old(self).cache().contains_key(key@),
            pipeline_info(pipeline).device == old(self).gpu.info().id,
            pipeline_info(pipeline).id < old(self).gpu.compiled().len(),
            forall|k: Key| #[trigger]
                old(self).cache().contains_key(k) ==> old(self).cache()[k].id != pipeline_info(
                    pipeline,
                ).id,
        ensures
            final(self).wf(),
            final(self).gpu == old(self).gpu,
            final(self).same_setup(*old(self)),
            final(self).cache() == old(self).cache().insert(key@, pipeline_info(pipeline)),
    {
        let b: u64 = Self::pack(&key);
        let ghost info = pipeline_info(pipeline);
        let ghost was = bucket_of(self.pipeline_cache@, key@);
        let mut bucket = match self.pipeline_cache.remove(&b) {
            Some(bucket) => bucket,
            None => Vec::new(),
        };
        bucket.push((key, pipeline));
        let ghost is = bucket@;
        self.pipeline_cache.insert(b, bucket);
        proof {
            let n = was.len() as int;
            assert(is =~= was.push((key, pipeline)));
            assert forall|i: int| 0 <= i < n implies (#[trigger] was[i]).0@ != key@ by {
                assert(!kept_at(was, i, key@));
            }
            assert(in_bucket(is, self.gpu.info().id));
            assert forall|k: Key| #[trigger]
                self.cache().contains_key(k) <==> old(self).cache().contains_key(k) || k == key@ by {
                let before = bucket_of(old(self).pipeline_cache@, k);
                let after = bucket_of(self.pipeline_cache@, k);
                if old(self).cache().contains_key(k) {
                    let i = choose|i: int| kept_at(before, i, k);
                    assert(kept_at(after, i, k));
                }
                if k == key@ {
                    assert(kept_at(after, n, k));
                }
                if self.cache().contains_key(k) {
                    let i = choose|i: int| kept_at(after, i, k);
                    if k != key@ {
                        assert(kept_at(before, i, k));
                    }
                }
            }
            assert forall|k: Key| #[trigger] self.cache().contains_key(k) implies self.cache()[k]
                == old(self).cache().insert(key@, info)[k] by {
                let before = bucket_of(old(self).pipeline_cache@, k);
                let after = bucket_of(self.pipeline_cache@, k);
                let i = choose|i: int| kept_at(after, i, k);
                assert(kept_at(after, i, k));
                if k == key@ {
                    assert(i == n);
                } else {
                    let j = choose|j: int| kept_at(before, j, k);
                    assert(kept_at(before, i, k));
                    assert(kept_at(before, j, k));
                    assert(before[i].0@ == before[j].0@);
                    assert(i == j);
                }
            }
            assert(self.cache() =~= old(self).cache().insert(key@, info));
            assert forall|k: Key| #[trigger] self.cache().contains_key(k) implies self.cache()[k].id
                < self.gpu.compiled().len() by {
                assert(k == key@ || old(self).cache().contains_key(k));
            }
            assert forall|a: Key, b: Key|
                #![trigger self.cache()[a], self.cache()[b]]
                self.cache().contains_key(a) && self.cache().contains_key(b) && a
                    != b implies self.cache()[a].id != self.cache()[b].id by {
                assert(a == key@ || old(self).cache().contains_key(a));
                assert(b == key@ || old(self).cache().contains_key(b));
                if a != key@ && b != key@ {
                    assert(old(self).cache()[a].id != old(self).cache()[b].id);
                }
            }
        }
    }

    /// Returns the pipeline that is kept under `key`, or else compiles `shader` and keeps its
    /// pipeline under `key`; or else says that the device does not take the shader. On a device
    /// without immediate data the shader's parameters become a uniform buffer.
    #[verifier::spinoff_prover]
    pub fn try_pipeline(&mut self, key: PipelineKey, shader: &WgslShader, immediate_size: u32) -> (outcome:
        Result<wgpu::ComputePipeline, WgpuError>)
        requires
            old(self).wf(),
        ensures
            final(self).wf(),
            final(self).same_setup(*old(self)),
            final(self).gpu.memory() == old(self).gpu.memory(),
            final(self).gpu.mapped() == old(self).gpu.mapped(),
            final(self).gpu.dispatched() == old(self).gpu.dispatched(),
            ({
                let made = newest(
                    old(self).gpu.info().id,
                    old(self).gpu.compiled(),
                    program_of(shader.kind@, shader.source@, immediate_size, old(self).features),
                );
                let cached = old(self).cache().contains_key(key@);
                match outcome {
                    Ok(pipeline) => {
                        &&& cached || compiles(old(self).gpu.info(), made.program)
                        &&& pipeline_info(pipeline) == found(old(self).cache(), key@, made)
                        &&& (final(self).cache(), final(self).gpu.compiled()) == looked_up(
                            old(self).cache(),
                            old(self).gpu.compiled(),
                            key@,
                            made,
                        )
                    },
                    Err(error) => {
                        &&& !cached && !compiles(old(self).gpu.info(), made.program)
                        &&& error is ShaderCompilation
                        &&& error->shader@ == key@.shader_name
                        &&& final(self).cache() == old(self).cache()
                        &&& final(self).gpu.compiled() == old(self).gpu.compiled()
                    },
                }
            }),
    {
        let ghost program = program_of(
            shader.kind@,
            shader.source@,
            immediate_size,
            self.features,
        );
        if let Some(pipeline) = self.find(&key) {
            return Ok(pipeline);
        }
        let refused = WgpuError::ShaderCompilation {
            shader: key.shader_name.to_owned(),
            msg: "the device has no room for what the shader binds".to_owned(),
        };
        let mut entries: Vec<LayoutEntry> = shader.kind.layout();
        let mut source: String = shader.source.clone();
        let mut size: u32 = immediate_size;
        if !self.features.immediates && immediate_size > 0 {
            let slot: u32 = match shader.kind.free_slot() {
                Some(slot) => slot,
                None => {
                    proof {
                        lemma_slot_before(shader.kind@.bindings);
                        let i = choose|i: int|
                            0 <= i < shader.kind@.bindings.len() && (
                            #[trigger] shader.kind@.bindings[i]).slot + 1 == next_slot(
                                shader.kind@.bindings,
                            );
                        assert(program.entries[i].slot == u32::MAX);
                    }
                    return Err(refused);
                },
            };
            source = with_uniform(source.as_str(), slot);
            entries.push(LayoutEntry { slot, access: Access::Uniform });
            size = 0;
        }
        assert(entries@ =~= program.entries);
        if !allows_layout(&entries, self.limits) || self.limits.max_bind_groups < 1 || (size > 0
            && !self.features.immediates) || size > self.limits.max_immediate_size || size % 4 != 0 {
            return Err(refused);
        }
        let mut label = debug_text(key.shader_name);
        let module = match create_shader_module(&self.gpu, label.as_str(), source.as_str()) {
            Ok(module) => module,
            Err(error) => return Err(shader_refused(key.shader_name, &error)),
        };
        let layout = create_bind_group_layout(&self.gpu, "Compute BGL", &entries);
        let pipeline_layout = create_pipeline_layout(&self.gpu, "Pipeline Layout", &layout, size);
        label.append(" Pipeline");
        let made = create_compute_pipeline(&mut self.gpu, label.as_str(), &pipeline_layout, &module);
        let pipeline = match made {
            Ok(pipeline) => pipeline,
            Err(error) => return Err(shader_refused(key.shader_name, &error)),
        };
        self.keep(key, share_pipeline(&pipeline));
        Ok(pipeline)
    }

    /// Returns the pipeline that is kept under `key`, or else compiles `shader`, which has to be one
    /// that the device takes, and keeps its pipeline under `key`.
    pub fn get_or_create_pipeline(
        &mut self,
        key: PipelineKey,
        shader: &WgslShader,
        immediate_size: u32,
    ) -> (pipeline: wgpu::ComputePipeline)
        requires
            old(self).wf(),
            old(self).cache().contains_key(key@) || compiles(
                old(self).gpu.info(),
                program_of(shader.kind@, shader.source@, immediate_size, old(self).features),
            ),
        ensures
            final(self).wf(),
            final(self).same_setup(*old(self)),
            final(self).gpu.memory() == old(self).gpu.memory(),
            final(self).gpu.mapped() == old(self).gpu.mapped(),
            final(self).gpu.dispatched() == old(self).gpu.dispatched(),
            ({
                let made = newest(
                    old(self).gpu.info().id,
                    old(self).gpu.compiled(),
                    program_of(shader.kind@, shader.source@, immediate_size, old(self).features),
                );
                &&& pipeline_info(pipeline) == found(old(self).cache(), key@, made)
                &&& (final(self).cache(), final(self).gpu.compiled()) == looked_up(
                    old(self).cache(),
                    old(self).gpu.compiled(),
                    key@,
                    made,
                )
            }),
    {
        match self.try_pipeline(key, shader, immediate_size) {
            Ok(pipeline) => pipeline,
            Err(_) => vstd::pervasive::unreached(),
        }
    }
}

/// The first free slot is the one behind some binding.
proof fn lemma_slot_before(bindings: Seq<Binding>)
    requires
        next_slot(bindings) > 0,
    ensures
        exists|i: int|
            0 <= i < bindings.len() && (#[trigger] bindings[i]).slot + 1 == next_slot(bindings),
    decreases bindings.len(),
{
    let rest = bindings.drop_last();
    if bindings.last().slot < next_slot(rest) {
        lemma_slot_before(rest);
        let i = choose|i: int|
            0 <= i < rest.len() && (#[trigger] rest[i]).slot + 1 == next_slot(rest);
        assert(bindings[i] == rest[i]);
    } else {
        assert(bindings[bindings.len() - 1].slot + 1 == next_slot(bindings));
    }
}

/// The error of a shader that the device does not take.
fn shader_refused(shader: &'static str, error: &wgpu::Error) -> (reported: WgpuError)
    ensures
        reported is ShaderCompilation,
        reported->shader@ == shader@,
{
    WgpuError::ShaderCompilation { shader: shader.to_owned(), msg: error_text(error) }
}

} // verus!
