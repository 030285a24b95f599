//! Opening devices.
use kornia_wgpu::bytes::F32;
use kornia_wgpu::device::{DeviceOptions, WgpuDevice};
use kornia_wgpu::gpu::{Backends, PowerPreference};
use kornia_wgpu::kernel::Kernel;
use kornia_wgpu::ops::image::cast::CastParams;
use kornia_wgpu::ops::{compute_1in_1out, try_compute_1in_1out};
use kornia_wgpu::shader::{BindingDesc, BindingRole, PipelineKey, ShaderKind, WgslShader};
use kornia_wgpu::{WgpuError, WgpuSession};

fn none() -> Backends {
    Backends {
        noop: false,
        vulkan: false,
        metal: false,
        dx12: false,
        gl: false,
        browser_webgpu: false,
    }
}

#[test]
fn default_options() {
    let options = DeviceOptions::default();
    assert!(options.backend.is_none());
    assert_eq!(options.power_preference, PowerPreference::HighPerformance);
    assert_eq!(options.workgroup_size, (8, 8));
    assert_eq!(options.staging_pool_size, 67_108_864);
    assert_eq!(
        options.backends(),
        Backends {
            vulkan: true,
            metal: true,
            dx12: true,
            ..none()
        }
    );
    let asked = DeviceOptions {
        backend: Some(Backends { gl: true, ..none() }),
        ..options
    };
    assert_eq!(asked.backends(), Backends { gl: true, ..none() });
}

#[test]
fn without_backends_there_is_no_adapter() {
    let options = DeviceOptions {
        backend: Some(none()),
        power_preference: PowerPreference::LowPower,
        ..DeviceOptions::default()
    };
    match WgpuSession::with_options(options) {
        Err(WgpuError::NoAdapter(backend)) => assert_eq!(backend, Some(none())),
        _ => panic!("an adapter was found on no backend"),
    }
    let options = DeviceOptions {
        power_preference: PowerPreference::NoPreference,
        ..options
    };
    assert!(matches!(
        WgpuDevice::new(options),
        Err(WgpuError::NoAdapter(Some(_)))
    ));
}

#[test]
fn the_record_of_a_device() {
    let limits = wgpu::Limits {
        max_immediate_size: 32,
        max_buffer_size: 1 << 20,
        ..Default::default()
    };
    let (device, queue) = wgpu::Device::noop(&wgpu::DeviceDescriptor {
        required_features: wgpu::Features::IMMEDIATES,
        required_limits: limits.clone(),
        ..Default::default()
    });
    let options = DeviceOptions {
        workgroup_size: (4, 2),
        ..DeviceOptions::default()
    };
    let device = WgpuDevice::from_parts(device, queue, options);
    assert_eq!(device.workgroup_size, (4, 2));
    assert!(device.features.immediates);
    assert_eq!(device.limits.max_immediate_size, 32);
    assert_eq!(device.limits.max_buffer_size, 1 << 20);
    assert_eq!(
        device.limits.max_compute_workgroups_per_dimension,
        limits.max_compute_workgroups_per_dimension
    );
    assert_eq!(
        device.limits.max_storage_buffer_binding_size,
        limits.max_storage_buffer_binding_size
    );

    let (plain, queue) = wgpu::Device::noop(&wgpu::DeviceDescriptor::default());
    let plain = WgpuDevice::from_parts(plain, queue, DeviceOptions::default());
    assert!(!plain.features.immediates);
    assert!(Kernel::ResizeNearest.is_supported(plain.limits, plain.features));
    assert_eq!(
        plain.limits.max_uniform_buffer_binding_size,
        wgpu::Limits::default().max_uniform_buffer_binding_size
    );
    assert_eq!(
        plain.limits.max_uniform_buffers_per_shader_stage,
        wgpu::Limits::default().max_uniform_buffers_per_shader_stage
    );
}

#[test]
fn a_pipeline_is_compiled_once_per_key() {
    let (device, queue) = wgpu::Device::noop(&wgpu::DeviceDescriptor {
        required_features: wgpu::Features::IMMEDIATES,
        required_limits: wgpu::Limits {
            max_immediate_size: 64,
            ..Default::default()
        },
        ..Default::default()
    });
    let mut device = WgpuDevice::from_parts(device, queue, DeviceOptions::default());
    let mut shader = WgslShader {
        kind: Kernel::CastU8ToF32.shader_kind(),
        source: kornia_wgpu::ops::image::cast::CAST_U8_TO_F32_WGSL.to_string(),
    };
    shader.build();
    let key = PipelineKey::from_kind(&shader.kind, 1, 3, 64, 1, 0);
    let first = device.get_or_create_pipeline(key, &shader, 16);
    let again = device.get_or_create_pipeline(key, &shader, 16);
    assert_eq!(first, again);
    assert_eq!(device.pipeline_cache.values().flatten().count(), 1);

    let other = PipelineKey::from_kind(&shader.kind, 1, 1, 64, 1, 0);
    let third = device.get_or_create_pipeline(other, &shader, 16);
    assert_ne!(first, third);
    assert_eq!(device.pipeline_cache.values().flatten().count(), 2);

    // What is kept under a key is found whatever shader comes with it.
    let other_shader = WgslShader {
        kind: Kernel::ResizeNearest.shader_kind(),
        source: "no shader at all".to_string(),
    };
    assert_eq!(device.get_or_create_pipeline(key, &other_shader, 3), first);
    assert_eq!(device.pipeline_cache.values().flatten().count(), 2);
}

/// Two keys that differ in their names only.
#[test]
fn names_tell_pipelines_apart() {
    let mut device = noop_device();
    let key = PipelineKey {
        shader_name: "Twice",
        pixel_bytes: 4,
        channels: 1,
        wg_x: 1,
        wg_y: 1,
        variant: 7,
    };
    let other = PipelineKey {
        shader_name: "Thrice",
        ..key
    };
    let first = device.get_or_create_pipeline(key, &doubling("Twice"), 16);
    let second = device.get_or_create_pipeline(other, &doubling("Thrice"), 16);
    assert_ne!(first, second);
    assert_eq!(device.get_or_create_pipeline(key, &doubling("Twice"), 16), first);
    assert_eq!(device.get_or_create_pipeline(other, &doubling("Thrice"), 16), second);
    assert_eq!(device.pipeline_cache.len(), 1);
    assert_eq!(device.pipeline_cache.values().flatten().count(), 2);
}

fn noop_device() -> WgpuDevice {
    let (device, queue) = wgpu::Device::noop(&wgpu::DeviceDescriptor {
        required_features: wgpu::Features::IMMEDIATES,
        required_limits: wgpu::Limits {
            max_immediate_size: 64,
            ..Default::default()
        },
        ..Default::default()
    });
    WgpuDevice::from_parts(device, queue, DeviceOptions::default())
}

fn plain_device() -> WgpuDevice {
    let (device, queue) = wgpu::Device::noop(&wgpu::DeviceDescriptor::default());
    WgpuDevice::from_parts(device, queue, DeviceOptions::default())
}

const DOUBLING: &str = "struct Params { numel: u32, factor: f32, _pad: vec2<u32> }\n\
    var<immediate> p: Params;\n\
    @compute @workgroup_size(8, 4)\n\
    fn main(@builtin(global_invocation_id) id: vec3<u32>) {\n\
    if id.x >= p.numel { return; }\n\
    y[id.x] = p.factor * x[id.x];\n\
    }\n";

fn doubling_kind(name: &'static str, in_slot: u32) -> ShaderKind {
    ShaderKind::new(
        name,
        vec![
            BindingDesc {
                slot: in_slot,
                role: BindingRole::ReadBuffer,
                wgsl_type: "array<f32>",
                name: "x",
            },
            BindingDesc {
                slot: 1,
                role: BindingRole::WriteBuffer,
                wgsl_type: "array<f32>",
                name: "y",
            },
        ],
    )
}

fn doubling(name: &'static str) -> WgslShader {
    let mut shader = WgslShader {
        kind: doubling_kind(name, 0),
        source: DOUBLING.to_string(),
    };
    shader.build();
    shader
}

fn factor(numel: u32, factor: f32) -> CastParams {
    CastParams {
        numel,
        scale: F32 {
            bits: factor.to_bits(),
        },
        _pad: [0, 0],
    }
}

/// Any shader can be dispatched, on a device with immediate data and on one without.
#[test]
fn any_shader_can_be_dispatched() {
    for device in [noop_device(), plain_device()] {
        let immediates = device.features.immediates;
        let mut session = WgpuSession::on_device(device);
        let x = session.acquire_compute(64);
        let y = session.acquire_compute(64);
        for _ in 0..2 {
            let outcome = try_compute_1in_1out(
                &mut session,
                doubling_kind("Doubling", 0),
                DOUBLING,
                x.gpu_buffer(),
                y.gpu_buffer(),
                &factor(16, 2.0),
                (16, 1),
                (8, 4),
                4,
                1,
            );
            assert!(outcome.is_ok());
            assert_eq!(session.device.pipeline_cache.values().flatten().count(), 1);
        }
        compute_1in_1out(
            &mut session,
            doubling_kind("Doubling", 0),
            DOUBLING,
            x.gpu_buffer(),
            y.gpu_buffer(),
            &factor(16, 3.0),
            (16, 1),
            (8, 4),
            4,
            1,
        );
        assert_eq!(session.parameters.is_none(), immediates);
    }
}

#[test]
fn a_shader_that_does_not_compile_is_reported() {
    for mut device in [noop_device(), plain_device()] {
        let key = PipelineKey::from_kind(&doubling_kind("Broken", 0), 4, 1, 8, 4, 0);
        let broken = WgslShader {
            kind: doubling_kind("Broken", 0),
            source: "fn main() { nonsense }".to_string(),
        };
        match device.try_pipeline(key, &broken, 16) {
            Err(WgpuError::ShaderCompilation { shader, msg }) => {
                assert_eq!(shader, "Broken");
                assert!(!msg.is_empty());
            }
            _ => panic!("nonsense was compiled"),
        }
        // It parses, but it has no entry point.
        let headless = WgslShader {
            kind: doubling_kind("Broken", 0),
            source: "fn other() {}".to_string(),
        };
        assert!(matches!(
            device.try_pipeline(key, &headless, 16),
            Err(WgpuError::ShaderCompilation { .. })
        ));
        // Two bindings of one slot.
        let mut clash = WgslShader {
            kind: doubling_kind("Broken", 1),
            source: DOUBLING.to_string(),
        };
        clash.build();
        assert!(matches!(
            device.try_pipeline(key, &clash, 16),
            Err(WgpuError::ShaderCompilation { .. })
        ));
        assert_eq!(device.pipeline_cache.values().flatten().count(), 0);
        assert!(device.try_pipeline(key, &doubling("Broken"), 16).is_ok());
        assert!(device.try_pipeline(key, &clash, 16).is_ok());
    }
}

/// A name that has to be escaped in a label is a name like any other.
#[test]
fn a_name_with_quotes() {
    let mut device = noop_device();
    let key = PipelineKey::from_kind(&doubling_kind("say \"twice\"\n", 0), 4, 1, 8, 4, 0);
    let first = device.get_or_create_pipeline(key, &doubling("say \"twice\"\n"), 16);
    assert_eq!(device.get_or_create_pipeline(key, &doubling("other"), 0), first);
}

/// A buffer that is smaller than what the shader declares.
#[test]
fn buffers_that_are_too_small_are_reported() {
    for device in [noop_device(), plain_device()] {
        let mut session = WgpuSession::on_device(device);
        let x = session.acquire_compute(64);
        let y = session.acquire_compute(64);
        let large = ShaderKind::new(
            "Large",
            vec![
                BindingDesc {
                    slot: 0,
                    role: BindingRole::ReadBuffer,
                    wgsl_type: "array<f32, 32>",
                    name: "x",
                },
                BindingDesc {
                    slot: 1,
                    role: BindingRole::WriteBuffer,
                    wgsl_type: "array<f32, 32>",
                    name: "y",
                },
            ],
        );
        let outcome = try_compute_1in_1out(
            &mut session,
            large,
            DOUBLING,
            x.gpu_buffer(),
            y.gpu_buffer(),
            &factor(16, 2.0),
            (16, 1),
            (8, 4),
            4,
            1,
        );
        assert!(matches!(outcome, Err(WgpuError::Custom(_))));
    }
}

/// Each answer of the outside gives its own outcome.
#[test]
fn answers_and_outcomes() {
    let options = DeviceOptions {
        backend: Some(Backends { gl: true, ..none() }),
        workgroup_size: (2, 3),
        ..DeviceOptions::default()
    };
    let without = WgpuDevice::from_requests(options, Err(wgpu::RequestAdapterError::EnvNotSet));
    assert!(matches!(
        without,
        Err(WgpuError::NoAdapter(Some(backends))) if backends.gl
    ));

    let instance = wgpu::Instance::new(&wgpu::InstanceDescriptor {
        backends: wgpu::Backends::NOOP,
        backend_options: wgpu::BackendOptions {
            noop: wgpu::NoopBackendOptions { enable: true },
            ..Default::default()
        },
        ..Default::default()
    });
    let adapter =
        pollster::block_on(instance.request_adapter(&wgpu::RequestAdapterOptions::default()))
            .unwrap();
    let refused = pollster::block_on(adapter.request_device(&wgpu::DeviceDescriptor {
        required_limits: wgpu::Limits {
            max_bind_groups: u32::MAX,
            ..Default::default()
        },
        ..Default::default()
    }));
    assert!(refused.is_err());
    assert!(matches!(
        WgpuDevice::from_requests(options, Ok(refused)),
        Err(WgpuError::DeviceCreation(_))
    ));
    let opened = pollster::block_on(adapter.request_device(&wgpu::DeviceDescriptor::default()));
    match WgpuDevice::from_requests(options, Ok(opened)) {
        Ok(device) => {
            assert_eq!(device.workgroup_size, (2, 3));
            assert!(device.pipeline_cache.is_empty());
        }
        Err(_) => panic!("an open device was not taken"),
    }
}
