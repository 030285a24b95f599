//! Shader texts, kinds and keys.
use std::collections::HashSet;

use kornia_wgpu::gpu::{DeviceFeatures, DeviceLimits};
use kornia_wgpu::kernel::Kernel;
use kornia_wgpu::shader::{
    with_uniform, BindingDesc, BindingRole, PipelineKey, ShaderKind, WgslShader,
};
use kornia_wgpu::text::decimal_text;

fn limits() -> DeviceLimits {
    DeviceLimits {
        max_buffer_size: 1 << 28,
        max_storage_buffer_binding_size: 1 << 27,
        max_storage_buffers_per_shader_stage: 8,
        max_uniform_buffer_binding_size: 1 << 16,
        max_uniform_buffers_per_shader_stage: 12,
        max_bind_groups: 4,
        max_bindings_per_bind_group: 1000,
        max_immediate_size: 64,
        max_compute_workgroup_size_x: 256,
        max_compute_workgroup_size_y: 256,
        max_compute_workgroup_size_z: 64,
        max_compute_invocations_per_workgroup: 256,
        max_compute_workgroups_per_dimension: 65535,
    }
}

#[test]
fn build_prepends_the_declarations() {
    let mut shader = WgslShader {
        kind: Kernel::TensorElementwise.shader_kind(),
        source: "fn main() {}".to_string(),
    };
    shader.build();
    assert_eq!(
        shader.source,
        "@group(0) @binding(0) var<storage, read> a: array<vec4<f32>>;\n\
         @group(0) @binding(1) var<storage, read> b: array<vec4<f32>>;\n\
         @group(0) @binding(2) var<storage, read_write> out: array<vec4<f32>>;\n\
         \n\
         fn main() {}"
    );
    assert_eq!(shader.kind.name, "TensorElementwise");
}

/// Without immediate data the parameters are declared as a uniform buffer.
#[test]
fn parameters_become_a_uniform_buffer() {
    assert_eq!(
        with_uniform("struct P { n: u32 }\nvar<immediate> p: P;\nvar<immediate>", 12),
        "struct P { n: u32 }\n@group(0) @binding(12) var<uniform> p: P;\nvar<immediate>"
    );
    assert_eq!(with_uniform("fn main() {}", 2), "fn main() {}");
    assert_eq!(with_uniform("", 2), "");
    assert_eq!(Kernel::TensorElementwise.shader_kind().free_slot(), Some(3));
    assert_eq!(ShaderKind::new("None", vec![]).free_slot(), Some(0));
    let last = BindingDesc {
        slot: u32::MAX,
        role: BindingRole::ReadBuffer,
        wgsl_type: "u32",
        name: "x",
    };
    assert_eq!(ShaderKind::new("Last", vec![last]).free_slot(), None);
}

#[test]
fn numbers_in_decimal() {
    for n in [0u64, 7, 10, 99, 100, 1203, 4294967295, u64::MAX] {
        assert_eq!(decimal_text(n), n.to_string());
    }
}

#[test]
fn build_writes_slots_in_decimal() {
    let kind = ShaderKind::new(
        "Custom",
        vec![BindingDesc {
            slot: 1203,
            role: BindingRole::WriteBuffer,
            wgsl_type: "array<u32>",
            name: "x",
        }],
    );
    let mut shader = WgslShader {
        kind,
        source: String::new(),
    };
    shader.build();
    assert_eq!(
        shader.source,
        "@group(0) @binding(1203) var<storage, read_write> x: array<u32>;\n\n"
    );
}

#[test]
fn build_without_bindings_adds_an_empty_line() {
    let mut shader = WgslShader {
        kind: ShaderKind::new("Empty", vec![]),
        source: "a".to_string(),
    };
    shader.build();
    assert_eq!(shader.source, "\na");
    shader.build();
    assert_eq!(shader.source, "\n\na");
}

#[test]
fn kinds_are_equal_by_name() {
    let a = ShaderKind::new("Same", vec![]);
    let b = Kernel::CastU8ToF32.shader_kind();
    let c = ShaderKind::new("CastU8ToF32", vec![]);
    assert!(a != b);
    assert!(b == c);
    assert_eq!(c.bindings().len(), 0);
    assert_eq!(b.bindings().len(), 2);
    assert_eq!(b.bindings()[0].name, "input_u8");
    assert_eq!(b.bindings()[1].role, BindingRole::WriteBuffer);
    assert_eq!(b.name(), "CastU8ToF32");
}

#[test]
fn equal_kinds_and_keys_hash_alike() {
    let kind = Kernel::ResizeNearest.shader_kind();
    let named_so = ShaderKind::new("ResizeNearest", vec![]);
    let other = Kernel::ResizeBilinear.shader_kind();
    let kinds = HashSet::from([kind]);
    assert!(kinds.contains(&named_so));
    assert!(!kinds.contains(&other));
    let key = PipelineKey::from_kind(&named_so, 4, 3, 16, 16, 0);
    let keys = HashSet::from([key]);
    assert!(keys.contains(&PipelineKey::from_kind(&named_so, 4, 3, 16, 16, 0)));
    assert!(!keys.contains(&PipelineKey::from_kind(&other, 4, 3, 16, 16, 0)));
}

#[test]
fn keys_are_equal_field_by_field() {
    let kind = Kernel::ResizeNearest.shader_kind();
    let key = PipelineKey::from_kind(&kind, 4, 3, 16, 16, 0);
    assert_eq!(key.shader_name, "ResizeNearest");
    assert!(key == PipelineKey::from_kind(&kind, 4, 3, 16, 16, 0));
    assert!(key != PipelineKey::from_kind(&kind, 1, 3, 16, 16, 0));
    assert!(key != PipelineKey::from_kind(&kind, 4, 1, 16, 16, 0));
    assert!(key != PipelineKey::from_kind(&kind, 4, 3, 8, 16, 0));
    assert!(key != PipelineKey::from_kind(&kind, 4, 3, 16, 8, 0));
    assert!(key != PipelineKey::from_kind(&kind, 4, 3, 16, 16, 1));
    let other = Kernel::ResizeBilinear.shader_kind();
    assert!(key != PipelineKey::from_kind(&other, 4, 3, 16, 16, 0));
}

#[test]
fn the_table_of_kernels() {
    let names: Vec<&str> = [
        Kernel::ResizeNearest,
        Kernel::ResizeBilinear,
        Kernel::TensorElementwise,
        Kernel::CastU8ToF32,
        Kernel::CastF32ToU8,
    ]
    .iter()
    .map(|kernel| kernel.shader_kind().name)
    .collect();
    assert_eq!(
        names,
        [
            "ResizeNearest",
            "ResizeBilinear",
            "TensorElementwise",
            "CastU8ToF32",
            "CastF32ToU8"
        ]
    );
}

#[test]
fn support_follows_the_limits() {
    let features = DeviceFeatures { immediates: true };
    assert!(Kernel::ResizeNearest.is_supported(limits(), features));
    let plain = DeviceFeatures { immediates: false };
    assert!(Kernel::ResizeNearest.is_supported(limits(), plain));
    let no_uniforms = DeviceLimits {
        max_uniform_buffers_per_shader_stage: 0,
        ..limits()
    };
    assert!(Kernel::ResizeNearest.is_supported(no_uniforms, features));
    assert!(!Kernel::ResizeNearest.is_supported(no_uniforms, plain));
    let two_bindings = DeviceLimits {
        max_bindings_per_bind_group: 2,
        ..limits()
    };
    assert!(Kernel::ResizeNearest.is_supported(two_bindings, features));
    assert!(!Kernel::ResizeNearest.is_supported(two_bindings, plain));
    let small = DeviceLimits {
        max_compute_invocations_per_workgroup: 128,
        ..limits()
    };
    assert!(!Kernel::ResizeNearest.is_supported(small, features));
    assert!(!Kernel::TensorElementwise.is_supported(small, features));
    assert!(Kernel::CastU8ToF32.is_supported(small, features));
    let few = DeviceLimits {
        max_storage_buffers_per_shader_stage: 2,
        ..limits()
    };
    assert!(!Kernel::TensorElementwise.is_supported(few, features));
    assert!(Kernel::CastF32ToU8.is_supported(few, features));
    let short = DeviceLimits {
        max_immediate_size: 16,
        ..limits()
    };
    assert!(!Kernel::ResizeBilinear.is_supported(short, features));
    assert!(Kernel::TensorElementwise.is_supported(short, features));
}
