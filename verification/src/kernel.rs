//! The compute shaders of this crate.
use vstd::prelude::*;

use crate::gpu::{Access, DeviceFeatures, DeviceInfo, DeviceLimits, Program};
use crate::ops::image::cast::{CAST_F32_TO_U8_WGSL, CAST_U8_TO_F32_WGSL};
use crate::ops::image::resize::{RESIZE_BILINEAR_WGSL, RESIZE_WGSL};
use crate::ops::tensor::elementwise::ELEMENTWISE_WGSL;
use crate::pipeline::{has_room, storage_count};
use crate::pool::MIN_CLASS;
use crate::shader::{
    declaration, declarations, falls_back, layout_of, next_slot, program_of, uniform_declaration,
    with_declarations, Binding, BindingDesc, BindingRole, Kind, ShaderKind,
};
use crate::text::replaced;

verus! {

/// A compute shader.
#[derive(Clone, Copy, Debug, PartialEq, Eq, Structural)]
pub enum Kernel {
    ResizeNearest,
    ResizeBilinear,
    TensorElementwise,
    CastU8ToF32,
    CastF32ToU8,
}

/// A buffer that a shader reads.
pub open spec fn reads(slot: u32, wgsl_type: Seq<char>, name: Seq<char>) -> Binding {
    Binding { slot, role: BindingRole::ReadBuffer, wgsl_type, name }
}

/// A buffer that a shader writes.
pub open spec fn writes(slot: u32, wgsl_type: Seq<char>, name: Seq<char>) -> Binding {
    Binding { slot, role: BindingRole::WriteBuffer, wgsl_type, name }
}

impl Kernel {
    /// The name of the shader and what it binds.
    pub open spec fn kind(self) -> Kind {
        match self {
            Kernel::ResizeNearest => Kind {
                name: "ResizeNearest"@,
                bindings: seq![
                    reads(0, "array<f32>"@, "input_buf"@),
                    writes(1, "array<f32>"@, "output_buf"@),
                ],
            },
            Kernel::ResizeBilinear => Kind {
                name: "ResizeBilinear"@,
                bindings: seq![
                    reads(0, "array<f32>"@, "input_buf"@),
                    writes(1, "array<f32>"@, "output_buf"@),
                ],
            },
            Kernel::TensorElementwise => Kind {
                name: "TensorElementwise"@,
                bindings: seq![
                    reads(0, "array<vec4<f32>>"@, "a"@),
                    reads(1, "array<vec4<f32>>"@, "b"@),
                    writes(2, "array<vec4<f32>>"@, "out"@),
                ],
            },
            Kernel::CastU8ToF32 => Kind {
                name: "CastU8ToF32"@,
                bindings: seq![
                    reads(0, "array<u32>"@, "input_u8"@),
                    writes(1, "array<f32>"@, "output_f32"@),
                ],
            },
            Kernel::CastF32ToU8 => Kind {
                name: "CastF32ToU8"@,
                bindings: seq![
                    reads(0, "array<f32>"@, "input_f32"@),
                    writes(1, "array<u32>"@, "output_u8"@),
                ],
            },
        }
    }

    /// The text of the shader, without the declarations of what it binds.
    pub open spec fn body(self) -> Seq<char> {
        match self {
            Kernel::ResizeNearest => RESIZE_WGSL@,
            Kernel::ResizeBilinear => RESIZE_BILINEAR_WGSL@,
            Kernel::TensorElementwise => ELEMENTWISE_WGSL@,
            Kernel::CastU8ToF32 => CAST_U8_TO_F32_WGSL@,
            Kernel::CastF32ToU8 => CAST_F32_TO_U8_WGSL@,
        }
    }

    /// The number of bytes of immediate data that the shader takes.
    pub open spec fn immediate_size(self) -> u32 {
        match self {
            Kernel::ResizeNearest | Kernel::ResizeBilinear => 24,
            Kernel::TensorElementwise | Kernel::CastU8ToF32 | Kernel::CastF32ToU8 => 16,
        }
    }

    /// The size of a workgroup of the shader.
    pub open spec fn workgroup(self) -> (u32, u32) {
        match self {
            Kernel::ResizeNearest | Kernel::ResizeBilinear => (16, 16),
            Kernel::TensorElementwise => (256, 1),
            Kernel::CastU8ToF32 | Kernel::CastF32ToU8 => (64, 1),
        }
    }

    /// The size of the largest array element that the shader binds: no bound buffer may be smaller.
    pub open spec fn element_size(self) -> u64 {
        match self {
            Kernel::TensorElementwise => 16,
            _ => 4,
        }
    }

    /// The number of buffers that the shader binds.
    pub open spec fn binding_count(self) -> nat {
        self.kind().bindings.len()
    }

    /// What the pipeline of the shader is built from on a device with these features.
    pub open spec fn program(self, features: DeviceFeatures) -> Program {
        program_of(
            self.kind(),
            with_declarations(self.kind().bindings, self.body()),
            self.immediate_size(),
            features,
        )
    }

    /// A device with these limits and features can run the shader: it can pass the parameters one
    /// way or the other, and has room for the bindings and the workgroups.
    pub open spec fn runs_on(self, limits: DeviceLimits, features: DeviceFeatures) -> bool {
        &&& if features.immediates {
            &&& limits.max_immediate_size >= self.immediate_size()
            &&& limits.max_bindings_per_bind_group >= self.binding_count()
        } else {
            &&& limits.max_uniform_buffers_per_shader_stage >= 1
            &&& limits.max_uniform_buffer_binding_size >= MIN_CLASS
            &&& limits.max_buffer_size >= MIN_CLASS
            &&& limits.max_bindings_per_bind_group >= self.binding_count() + 1
        }
        &&& limits.max_bind_groups >= 1
        &&& limits.max_storage_buffers_per_shader_stage >= self.binding_count()
        &&& limits.max_compute_workgroup_size_x >= self.workgroup().0
        &&& limits.max_compute_workgroup_size_y >= self.workgroup().1
        &&& limits.max_compute_workgroup_size_z >= 1
        &&& limits.max_compute_invocations_per_workgroup >= self.workgroup().0 * self.workgroup().1
    }

    /// Whether a device with these limits and features can run the shader.
    pub fn is_supported(self, limits: DeviceLimits, features: DeviceFeatures) -> (supported: bool)
        ensures
            supported == self.runs_on(limits, features),
    {
        let (immediates, bindings, x, y, invocations): (u32, u32, u32, u32, u32) = match self {
            Kernel::ResizeNearest | Kernel::ResizeBilinear => (24, 2, 16, 16, 256),
            Kernel::TensorElementwise => (16, 3, 256, 1, 256),
            Kernel::CastU8ToF32 | Kernel::CastF32ToU8 => (16, 2, 64, 1, 64),
        };
        assert(self.binding_count() == bindings);
        assert(self.workgroup() == (x, y));
        assert(x * y == invocations) by (nonlinear_arith)
            requires
                (x == 16 && y == 16 && invocations == 256) || (y == 1 && x == invocations),
        ;
        let passes: bool = if features.immediates {
            limits.max_immediate_size >= immediates && limits.max_bindings_per_bind_group
                >= bindings
        } else {
            limits.max_uniform_buffers_per_shader_stage >= 1
                && limits.max_uniform_buffer_binding_size as u64 >= MIN_CLASS
                && limits.max_buffer_size >= MIN_CLASS && limits.max_bindings_per_bind_group
                > bindings
        };
        passes && limits.max_bind_groups >= 1
            && limits.max_storage_buffers_per_shader_stage >= bindings
            && limits.max_compute_workgroup_size_x >= x && limits.max_compute_workgroup_size_y >= y
            && limits.max_compute_workgroup_size_z >= 1
            && limits.max_compute_invocations_per_workgroup >= invocations
    }

    /// The bindings have the slots 0, 1, 2, ... in order; the last is the one that is written to, and
    /// the parameters come behind it. A device that can run the shader has room for its program.
    pub proof fn lemma_layout(self, info: DeviceInfo)
        ensures
            2 <= self.binding_count() <= 3,
            next_slot(self.kind().bindings) == self.binding_count(),
            layout_of(self.kind().bindings).len() == self.binding_count(),
            forall|i: int|
                0 <= i < self.binding_count() ==> {
                    let entry = #[trigger] layout_of(self.kind().bindings)[i];
                    &&& entry.slot == i
                    &&& entry.access == if i < self.binding_count() - 1 {
                        Access::Read
                    } else {
                        Access::Write
                    }
                },
            self.runs_on(info.limits, info.features) ==> has_room(info, self.program(info.features)),
    {
        reveal_with_fuel(next_slot, 4);
        reveal_with_fuel(storage_count, 5);
        let bindings = self.kind().bindings;
        let entries = layout_of(bindings);
        let program = self.program(info.features);
        assert(bindings.drop_last().len() == bindings.len() - 1);
        assert(storage_count(entries) == entries.len());
        if falls_back(info.features, self.immediate_size() as nat) {
            assert(program.entries.drop_last() =~= entries);
        }
    }

    /// The kind of the shader.
    pub fn shader_kind(self) -> (kind: ShaderKind)
        ensures
            kind@ == self.kind(),
    {
        match self {
            Kernel::ResizeNearest => pair(
                "ResizeNearest",
                "array<f32>",
                "input_buf",
                "array<f32>",
                "output_buf",
            ),
            Kernel::ResizeBilinear => pair(
                "ResizeBilinear",
                "array<f32>",
                "input_buf",
                "array<f32>",
                "output_buf",
            ),
            Kernel::CastU8ToF32 => pair(
                "CastU8ToF32",
                "array<u32>",
                "input_u8",
                "array<f32>",
                "output_f32",
            ),
            Kernel::CastF32ToU8 => pair(
                "CastF32ToU8",
                "array<f32>",
                "input_f32",
                "array<u32>",
                "output_u8",
            ),
            Kernel::TensorElementwise => {
                let wgsl_type = "array<vec4<f32>>";
                let mut bindings: Vec<BindingDesc> = Vec::new();
                bindings.push(
                    BindingDesc { slot: 0, role: BindingRole::ReadBuffer, wgsl_type, name: "a" },
                );
                bindings.push(
                    BindingDesc { slot: 1, role: BindingRole::ReadBuffer, wgsl_type, name: "b" },
                );
                bindings.push(
                    BindingDesc { slot: 2, role: BindingRole::WriteBuffer, wgsl_type, name: "out" },
                );
                let kind = ShaderKind::new("TensorElementwise", bindings);
                assert(kind@.bindings =~= self.kind().bindings);
                kind
            },
        }
    }
}

/// The kind of a shader that reads one buffer and writes one.
fn pair(
    name: &'static str,
    read_type: &'static str,
    read_name: &'static str,
    write_type: &'static str,
    write_name: &'static str,
) -> (kind: ShaderKind)
    ensures
        kind@ == (Kind {
            name: name@,
            bindings: seq![
                reads(0, read_type@, read_name@),
                writes(1, write_type@, write_name@),
            ],
        }),
{
    let mut bindings: Vec<BindingDesc> = Vec::new();
    bindings.push(
        BindingDesc {
            slot: 0,
            role: BindingRole::ReadBuffer,
            wgsl_type: read_type,
            name: read_name,
        },
    );
    bindings.push(
        BindingDesc {
            slot: 1,
            role: BindingRole::WriteBuffer,
            wgsl_type: write_type,
            name: write_name,
        },
    );
    let kind = ShaderKind::new(name, bindings);
    assert(kind@.bindings =~= seq![
        reads(0, read_type@, read_name@),
        writes(1, write_type@, write_name@),
    ]);
    kind
}

/// One of this crate's shaders has the name.
pub open spec fn is_kernel_name(name: Seq<char>) -> bool {
    exists|kernel: Kernel| #[trigger] kernel.kind().name == name
}

/// The shader of a name.
pub open spec fn kernel_named(name: Seq<char>) -> Kernel {
    if name == "ResizeNearest"@ {
        Kernel::ResizeNearest
    } else if name == "ResizeBilinear"@ {
        Kernel::ResizeBilinear
    } else if name == "TensorElementwise"@ {
        Kernel::TensorElementwise
    } else if name == "CastU8ToF32"@ {
        Kernel::CastU8ToF32
    } else {
        Kernel::CastF32ToU8
    }
}

/// No two shaders share a name, so a pipeline that is kept by name is never mistaken for another.
pub proof fn law_names_tell_kernels_apart(a: Kernel, b: Kernel)
    ensures
        kernel_named(a.kind().name) == a,
        a.kind().name == b.kind().name ==> a == b,
{
    reveal_strlit("ResizeNearest");
    reveal_strlit("ResizeBilinear");
    reveal_strlit("TensorElementwise");
    reveal_strlit("CastU8ToF32");
    reveal_strlit("CastF32ToU8");
    assert("ResizeNearest"@.len() == 13 && "ResizeBilinear"@.len() == 14);
    assert("TensorElementwise"@.len() == 17);
    assert("CastU8ToF32"@.len() == 11 && "CastF32ToU8"@.len() == 11);
    assert("CastU8ToF32"@[4] != "CastF32ToU8"@[4]);
}

/// What a pipeline is built from, as a text: the declarations of the buffers, each with its slot, its
/// access, its name and its type, an empty line, and the shader. The parameters are immediate data, or
/// else, where the device has none, a uniform buffer in the slot behind the others.
#[verifier::spinoff_prover]
pub proof fn law_programs_declare_what_they_bind(kernel: Kernel, features: DeviceFeatures)
    ensures
        ({
            let program = kernel.program(features);
            let n = match kernel {
                Kernel::TensorElementwise => 3,
                _ => 2int,
            };
            let text = match kernel {
                Kernel::ResizeNearest | Kernel::ResizeBilinear => "@group(0) @binding(0) var<storage, read> input_buf: array<f32>;\n"@
                    + "@group(0) @binding(1) var<storage, read_write> output_buf: array<f32>;\n\n"@,
                Kernel::TensorElementwise => "@group(0) @binding(0) var<storage, read> a: array<vec4<f32>>;\n"@
                    + "@group(0) @binding(1) var<storage, read> b: array<vec4<f32>>;\n"@
                    + "@group(0) @binding(2) var<storage, read_write> out: array<vec4<f32>>;\n\n"@,
                Kernel::CastU8ToF32 => "@group(0) @binding(0) var<storage, read> input_u8: array<u32>;\n"@
                    + "@group(0) @binding(1) var<storage, read_write> output_f32: array<f32>;\n\n"@,
                Kernel::CastF32ToU8 => "@group(0) @binding(0) var<storage, read> input_f32: array<f32>;\n"@
                    + "@group(0) @binding(1) var<storage, read_write> output_u8: array<u32>;\n\n"@,
            } + kernel.body();
            let uniform = match kernel {
                Kernel::TensorElementwise => "@group(0) @binding(3) var<uniform>"@,
                _ => "@group(0) @binding(2) var<uniform>"@,
            };
            &&& forall|i: int|
                0 <= i < n ==> (#[trigger] program.entries[i]).slot == i && program.entries[i].access
                    == if i == n - 1 {
                    Access::Write
                } else {
                    Access::Read
                }
            &&& if features.immediates {
                &&& program.source == text
                &&& program.entries.len() == n
                &&& program.immediate_size == match kernel {
                    Kernel::ResizeNearest | Kernel::ResizeBilinear => 24u32,
                    _ => 16u32,
                }
            } else {
                &&& program.source == replaced(text, "var<immediate>"@, uniform)
                &&& program.entries.len() == n + 1
                &&& program.entries[n].slot == n
                &&& program.entries[n].access == Access::Uniform
                &&& program.immediate_size == 0
            }
        }),
{
    reveal_strlit("@group(0) @binding(");
    reveal_strlit(") var<storage, ");
    reveal_strlit("read");
    reveal_strlit("read_write");
    reveal_strlit("> ");
    reveal_strlit(": ");
    reveal_strlit(";\n");
    reveal_strlit("\n");
    reveal_strlit(") var<uniform>");
    reveal_strlit("array<f32>");
    reveal_strlit("input_buf");
    reveal_strlit("output_buf");
    reveal_strlit("array<vec4<f32>>");
    reveal_strlit("a");
    reveal_strlit("b");
    reveal_strlit("out");
    reveal_strlit("array<u32>");
    reveal_strlit("input_u8");
    reveal_strlit("output_f32");
    reveal_strlit("input_f32");
    reveal_strlit("output_u8");
    reveal_strlit("@group(0) @binding(0) var<storage, read> a: array<vec4<f32>>;\n");
    reveal_strlit("@group(0) @binding(0) var<storage, read> input_buf: array<f32>;\n");
    reveal_strlit("@group(0) @binding(0) var<storage, read> input_f32: array<f32>;\n");
    reveal_strlit("@group(0) @binding(0) var<storage, read> input_u8: array<u32>;\n");
    reveal_strlit("@group(0) @binding(1) var<storage, read> b: array<vec4<f32>>;\n");
    reveal_strlit("@group(0) @binding(1) var<storage, read_write> output_buf: array<f32>;\n\n");
    reveal_strlit("@group(0) @binding(1) var<storage, read_write> output_f32: array<f32>;\n\n");
    reveal_strlit("@group(0) @binding(1) var<storage, read_write> output_u8: array<u32>;\n\n");
    reveal_strlit("@group(0) @binding(2) var<storage, read_write> out: array<vec4<f32>>;\n\n");
    reveal_strlit("@group(0) @binding(2) var<uniform>");
    reveal_strlit("@group(0) @binding(3) var<uniform>");
    reveal_with_fuel(declarations, 4);
    reveal_with_fuel(next_slot, 4);
    let bindings = kernel.kind().bindings;
    let n = bindings.len() as int;
    kernel.lemma_layout(arbitrary());
    if n == 2 {
        assert(bindings.drop_last() =~= seq![bindings[0]]);
        assert(bindings.drop_last().drop_last() =~= Seq::<Binding>::empty());
        assert(declarations(bindings) =~= declaration(bindings[0]) + declaration(bindings[1]));
    } else {
        assert(bindings.drop_last() =~= seq![bindings[0], bindings[1]]);
        assert(bindings.drop_last().drop_last() =~= seq![bindings[0]]);
        assert(bindings.drop_last().drop_last().drop_last() =~= Seq::<Binding>::empty());
        assert(declarations(bindings) =~= declaration(bindings[0]) + declaration(bindings[1])
            + declaration(bindings[2]));
    }
    match kernel {
        Kernel::ResizeNearest | Kernel::ResizeBilinear => {
            assert(declaration(reads(0, "array<f32>"@, "input_buf"@)) =~= "@group(0) @binding(0) var<storage, read> input_buf: array<f32>;\n"@);
            assert(declaration(writes(1, "array<f32>"@, "output_buf"@)) + "\n"@ =~= "@group(0) @binding(1) var<storage, read_write> output_buf: array<f32>;\n\n"@);
            assert(declarations(bindings) + "\n"@ =~= "@group(0) @binding(0) var<storage, read> input_buf: array<f32>;\n"@
                + "@group(0) @binding(1) var<storage, read_write> output_buf: array<f32>;\n\n"@);
        },
        Kernel::TensorElementwise => {
            assert(declaration(reads(0, "array<vec4<f32>>"@, "a"@)) =~= "@group(0) @binding(0) var<storage, read> a: array<vec4<f32>>;\n"@);
            assert(declaration(reads(1, "array<vec4<f32>>"@, "b"@)) =~= "@group(0) @binding(1) var<storage, read> b: array<vec4<f32>>;\n"@);
            assert(declaration(writes(2, "array<vec4<f32>>"@, "out"@)) + "\n"@ =~= "@group(0) @binding(2) var<storage, read_write> out: array<vec4<f32>>;\n\n"@);
            assert(declarations(bindings) + "\n"@ =~= "@group(0) @binding(0) var<storage, read> a: array<vec4<f32>>;\n"@
                + "@group(0) @binding(1) var<storage, read> b: array<vec4<f32>>;\n"@
                + "@group(0) @binding(2) var<storage, read_write> out: array<vec4<f32>>;\n\n"@);
        },
        Kernel::CastU8ToF32 => {
            assert(declaration(reads(0, "array<u32>"@, "input_u8"@)) =~= "@group(0) @binding(0) var<storage, read> input_u8: array<u32>;\n"@);
            assert(declaration(writes(1, "array<f32>"@, "output_f32"@)) + "\n"@ =~= "@group(0) @binding(1) var<storage, read_write> output_f32: array<f32>;\n\n"@);
            assert(declarations(bindings) + "\n"@ =~= "@group(0) @binding(0) var<storage, read> input_u8: array<u32>;\n"@
                + "@group(0) @binding(1) var<storage, read_write> output_f32: array<f32>;\n\n"@);
        },
        Kernel::CastF32ToU8 => {
            assert(declaration(reads(0, "array<f32>"@, "input_f32"@)) =~= "@group(0) @binding(0) var<storage, read> input_f32: array<f32>;\n"@);
            assert(declaration(writes(1, "array<u32>"@, "output_u8"@)) + "\n"@ =~= "@group(0) @binding(1) var<storage, read_write> output_u8: array<u32>;\n\n"@);
            assert(declarations(bindings) + "\n"@ =~= "@group(0) @binding(0) var<storage, read> input_f32: array<f32>;\n"@
                + "@group(0) @binding(1) var<storage, read_write> output_u8: array<u32>;\n\n"@);
        },
    }
    assert(uniform_declaration(2) =~= "@group(0) @binding(2) var<uniform>"@);
    assert(uniform_declaration(3) =~= "@group(0) @binding(3) var<uniform>"@);
    assert(with_declarations(bindings, kernel.body()) =~= (declarations(bindings) + "\n"@)
        + kernel.body());
}

/// A device with the default limits of WebGPU runs every shader.
pub proof fn law_default_limits_suffice(
    kernel: Kernel,
    limits: DeviceLimits,
    features: DeviceFeatures,
)
    requires
        limits.max_buffer_size >= 268435456,
        limits.max_storage_buffers_per_shader_stage >= 8,
        limits.max_uniform_buffer_binding_size >= 65536,
        limits.max_uniform_buffers_per_shader_stage >= 12,
        limits.max_bind_groups >= 4,
        limits.max_bindings_per_bind_group >= 1000,
        limits.max_compute_workgroup_size_x >= 256,
        limits.max_compute_workgroup_size_y >= 256,
        limits.max_compute_workgroup_size_z >= 64,
        limits.max_compute_invocations_per_workgroup >= 256,
        features.immediates ==> limits.max_immediate_size >= 24,
    ensures
        kernel.runs_on(limits, features),
{
    assert(kernel.workgroup().0 * kernel.workgroup().1 <= 256) by (nonlinear_arith)
        requires
            kernel.workgroup() == (16u32, 16u32) || kernel.workgroup() == (256u32, 1u32)
                || kernel.workgroup() == (64u32, 1u32),
    ;
}

} // verus!
