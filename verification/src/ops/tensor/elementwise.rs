//! Elementwise operations.
use vstd::prelude::*;

use crate::bytes::{bytes_of, lemma_singles_read, word_at, F32, Plain};
use crate::error::WgpuError;
use crate::gpu::{buffer_info, size_of_buffer, Dispatch};
use crate::gpu_res::GpuTensor;
use crate::host::{product, product_of};
use crate::kernel::Kernel;
use crate::ops::{
    div_ceil, grid, grid_for, groups_for, kernel_request, law_grid_covers_the_row,
    law_rows_reach_each_index_once, lemma_bound_in_order, lemma_grid_is_tight, lemma_groups_for,
    lemma_handed_over, lemma_kept_under, run, tight, Immediates, Request, MAX_WORKGROUPS,
};
use crate::pipeline::{bound, BoundBuffer};
use crate::pool::{
    class_of, fitting, is_power_of_two, law_size_class_is_fitting, law_size_class_is_the_smallest,
    lemma_class_covers, size_class,
};
use crate::session::{law_allocations_reach_the_limit, lemma_class_bounded, WgpuSession};
use crate::shader::{Key, PipelineKey};
use crate::transfer::{acquire_output, src_buffer_tensor, wrap_gpu_tensor};

verus! {

/// The elementwise operations, four elements at a time.
pub const ELEMENTWISE_WGSL: &'static str = r#"
struct Params {
    numel:   u32,  // original element count
    op_kind: u32,
    dispatch_x:u32,
    _pad:    u32,
}
var<immediate> p: Params;

@compute @workgroup_size(256)
fn main(@builtin(global_invocation_id) gid: vec3<u32>) {
    let i = gid.x + gid.y * p.dispatch_x * 256u;

    // Each thread handles 4 elements. Stop when we've covered all vec4 slots.
    // numel is the original count — div_ceil(numel, 4) is the number of vec4s.
    let vec4_count = (p.numel + 3u) / 4u;
    if i >= vec4_count { return; }

    let av = a[i];
    let bv = b[i];
    var res: vec4<f32>;

    switch p.op_kind {
        case 0u: { res = av + bv; }
        case 1u: { res = av - bv; }
        case 2u: { res = av * bv; }
        case 3u: { res = av / bv; }
        case 4u: { res = abs(av); }
        case 5u: { res = -av; }
        case 6u: { res = sqrt(av); }
        case 7u: { res = exp(av); }
        case 8u: { res = log(av); }
        case 9u: { res = max(vec4(0.0), av); }
        default: { res = av; }
    }

    out[i] = res;
}
"#;

/// Interoperability parameters for elementwise shaders.
#[derive(Clone, Copy, Debug)]
pub struct ElemParams {
    pub numel: u32,
    pub op_kind: u32,
    pub dispatch_x: u32,
    pub _pad: u32,
}

impl Immediates for ElemParams {
    open spec fn words(&self) -> Seq<u32> {
        seq![self.numel, self.op_kind, self.dispatch_x, self._pad]
    }

    fn to_words(&self) -> (words: Vec<u32>) {
        let words = vec![self.numel, self.op_kind, self.dispatch_x, self._pad];
        assert(words@ =~= self.words());
        words
    }
}

/// The number of workgroups that `numel` elements take: four elements per invocation and 256
/// invocations per workgroup.
pub open spec fn workgroups_for(numel: nat) -> nat {
    groups_for(groups_for(numel, 4), 256)
}

/// The grid of workgroups for `numel` elements.
pub fn compute_dispatch(numel: u32) -> (size: (u32, u32))
    ensures
        (size.0 as nat, size.1 as nat) == grid_for(workgroups_for(numel as nat)),
{
    let vec4_count: u32 = div_ceil(numel, 4);
    let total_wg: u32 = div_ceil(vec4_count, 256);
    grid(total_wg)
}

/// The grid for any number of elements is within the limit of every device, and each group of four
/// elements is that of exactly one invocation: the shader's index `x + y * dispatch_x * 256`
/// reaches it once.
pub proof fn law_each_quad_has_one_invocation(numel: u32, quad: nat, x: nat, y: nat)
    requires
        quad < groups_for(numel as nat, 4),
    ensures
        ({
            let (wg_x, wg_y) = grid_for(workgroups_for(numel as nat));
            let width = wg_x * 256;
            &&& wg_x <= MAX_WORKGROUPS
            &&& wg_y <= MAX_WORKGROUPS
            &&& width > 0
            &&& quad % width < width
            &&& quad / width < wg_y
            &&& (quad % width) + (quad / width) * width == quad
            &&& x < width && x + y * width == quad ==> x == quad % width && y == quad / width
        }),
{
    let n = numel as nat;
    let quads = groups_for(n, 4);
    let total = workgroups_for(n);
    let (wg_x, wg_y) = grid_for(total);
    lemma_groups_for(n, 4);
    lemma_groups_for(quads, 256);
    law_grid_covers_the_row(total, 0);
    let width = wg_x * 256;
    assert(quad < width * wg_y) by (nonlinear_arith)
        requires
            quad < quads,
            quads <= total * 256,
            total <= wg_x * wg_y,
            width == wg_x * 256,
    ;
    assert(width > 0) by (nonlinear_arith)
        requires
            quad < width * wg_y,
            quad >= 0,
            wg_y >= 0,
            width >= 0,
    ;
    law_rows_reach_each_index_once(quad, width, wg_y, x, y);
}

/// What an elementwise operation hands over.
pub open spec fn elementwise_request(
    numel: u32,
    op_kind: u32,
    a: wgpu::Buffer,
    b: wgpu::Buffer,
    out: wgpu::Buffer,
) -> Request {
    let (wg_x, wg_y) = grid_for(workgroups_for(numel as nat));
    kernel_request(
        Kernel::TensorElementwise,
        elementwise_key(),
        map![0u32 => buffer_info(a), 1u32 => buffer_info(b), 2u32 => buffer_info(out)],
        seq![numel, op_kind, wg_x as u32, 0u32],
        (wg_x as u32, wg_y as u32),
    )
}

/// The key that the pipeline of the elementwise operations is kept under.
pub open spec fn elementwise_key() -> Key {
    Key {
        shader_name: Kernel::TensorElementwise.kind().name,
        pixel_bytes: 4,
        channels: 1,
        wg_x: 64,
        wg_y: 1,
        variant: 0,
    }
}

#[verifier::spinoff_prover]
fn compute_tensor_elementwise(
    session: &mut WgpuSession,
    in_a: &wgpu::Buffer,
    in_b: &wgpu::Buffer,
    out_buffer: &wgpu::Buffer,
    numel: u32,
    op_kind: u32,
)
    requires
        old(session).wf(),
        ({
            let kernel = Kernel::TensorElementwise;
            let limits = old(session).device.limits;
            let (wg_x, wg_y) = grid_for(workgroups_for(numel as nat));
            &&& kernel.runs_on(limits, old(session).device.features)
            &&& old(session).bindable(kernel, *in_a)
            &&& old(session).bindable(kernel, *in_b)
            &&& old(session).bindable(kernel, *out_buffer)
            &&& buffer_info(*in_a).id != buffer_info(*out_buffer).id
            &&& buffer_info(*in_b).id != buffer_info(*out_buffer).id
            &&& wg_x <= limits.max_compute_workgroups_per_dimension
            &&& wg_y <= limits.max_compute_workgroups_per_dimension
        }),
    ensures
        final(session).wf(),
        final(session).ran_kernel(
            *old(session),
            Kernel::TensorElementwise,
            elementwise_request(numel, op_kind, *in_a, *in_b, *out_buffer),
            buffer_info(*out_buffer).id,
        ),
{
    let kernel = Kernel::TensorElementwise;
    let kind = kernel.shader_kind();
    let key = PipelineKey::from_kind(&kind, 4, 1, 64, 1, 0);
    let (wg_x, wg_y) = compute_dispatch(numel);
    let params = ElemParams { numel, op_kind, dispatch_x: wg_x, _pad: 0 };
    let words: Vec<u32> = params.to_words();
    let mut entries: Vec<BoundBuffer<'_>> = Vec::new();
    entries.push(BoundBuffer { slot: 0, buffer: in_a });
    entries.push(BoundBuffer { slot: 1, buffer: in_b });
    entries.push(BoundBuffer { slot: 2, buffer: out_buffer });
    proof {
        law_grid_covers_the_row(workgroups_for(numel as nat), 0);
    }
    proof {
        lemma_bound_in_order(entries@);
        assert(bound(entries@)[0u32] == buffer_info(*entries@[0].buffer));
        assert(bound(entries@)[1u32] == buffer_info(*entries@[1].buffer));
        assert(bound(entries@)[2u32] == buffer_info(*entries@[2].buffer));
        assert(bound(entries@) =~= map![
            0u32 => buffer_info(*in_a),
            1u32 => buffer_info(*in_b),
            2u32 => buffer_info(*out_buffer),
        ]);
    }
    run(
        session,
        kernel,
        key,
        ELEMENTWISE_WGSL,
        "elementwise",
        None,
        &entries,
        words.as_slice(),
        (wg_x, wg_y),
    );
}

/// The number of bytes of the output of an elementwise operation: that of the elements, rounded up
/// to whole groups of four.
pub open spec fn output_size(numel: nat) -> nat {
    (numel * 4 + 15) / 16 * 16
}

fn padded_size(numel: u32) -> (size: u64)
    ensures
        size == output_size(numel as nat),
{
    let byte_size: u64 = (numel as u64) * 4;
    let padded: u64 = byte_size + 15;
    assert(padded & !15u64 == padded / 16 * 16) by (bit_vector);
    padded & !15
}

impl WgpuSession {
    /// A tensor of the session can be an operand: its buffer is one that the device binds.
    pub open spec fn can_bind<const N: usize>(self, tensor: GpuTensor<F32, N>) -> bool {
        buffer_info(tensor.memory()).size
            <= self.device.limits.max_storage_buffer_binding_size
    }

    /// An elementwise operation on `numel` elements can be run: the device runs the shader, binds
    /// the output and takes the grid; and the output can be allocated.
    pub open spec fn can_run_elementwise(self, numel: nat) -> bool {
        let limits = self.device.limits;
        let (wg_x, wg_y) = grid_for(workgroups_for(numel));
        &&& Kernel::TensorElementwise.runs_on(limits, self.device.features)
        &&& self.can_allocate(output_size(numel))
        &&& size_class(output_size(numel)) <= limits.max_storage_buffer_binding_size
        &&& wg_x <= limits.max_compute_workgroups_per_dimension
        &&& wg_y <= limits.max_compute_workgroups_per_dimension
    }

    /// Whether a tensor of the session can be an operand.
    pub fn allows_operand<const N: usize>(&self, tensor: &GpuTensor<F32, N>) -> (allowed: bool)
        ensures
            allowed == self.can_bind(*tensor),
    {
        size_of_buffer(src_buffer_tensor(tensor))
            <= self.device.limits.max_storage_buffer_binding_size as u64
    }

    /// Whether an elementwise operation on `numel` elements can be run.
    pub fn allows_elementwise(&self, numel: u32) -> (allowed: bool)
        ensures
            allowed == self.can_run_elementwise(numel as nat),
    {
        let limits = self.device.limits;
        let (wg_x, wg_y) = compute_dispatch(numel);
        let n: u64 = padded_size(numel);
        Kernel::TensorElementwise.is_supported(limits, self.device.features)
            && self.allows_buffer(n) && class_of(n) <= limits.max_storage_buffer_binding_size as u64
            && wg_x <= limits.max_compute_workgroups_per_dimension && wg_y
            <= limits.max_compute_workgroups_per_dimension
    }

    /// This is `before` with an elementwise operation handed over.
    pub open spec fn computed_elementwise<const N: usize>(
        self,
        before: WgpuSession,
        op_kind: u32,
        a: GpuTensor<F32, N>,
        b: GpuTensor<F32, N>,
        output: GpuTensor<F32, N>,
    ) -> bool {
        let numel = product(a.dims());
        let request = elementwise_request(
            numel as u32,
            op_kind,
            a.memory(),
            b.memory(),
            output.memory(),
        );
        &&& self.operated(before, Kernel::TensorElementwise, request, output.memory())
        &&& output.dims() == a.dims()
        &&& output.steps() == a.steps()
        &&& self.holds_tensor(output)
        &&& buffer_info(output.memory()).size == size_class(output_size(numel))
    }

    /// This is `before` with the addition of two tensors handed over.
    pub open spec fn added<const N: usize>(
        self,
        before: WgpuSession,
        a: GpuTensor<F32, N>,
        b: GpuTensor<F32, N>,
        output: GpuTensor<F32, N>,
    ) -> bool {
        self.computed_elementwise(before, 0, a, b, output)
    }

    /// This is `before` with the rectification of a tensor handed over.
    pub open spec fn rectified<const N: usize>(
        self,
        before: WgpuSession,
        a: GpuTensor<F32, N>,
        output: GpuTensor<F32, N>,
    ) -> bool {
        self.computed_elementwise(before, 9, a, a, output)
    }
}

/// Runs one elementwise operation on the elements of `a`, and of `b` where it takes two.
#[verifier::spinoff_prover]
fn elementwise<const N: usize>(
    session: &mut WgpuSession,
    a: &GpuTensor<F32, N>,
    b: &GpuTensor<F32, N>,
    op_kind: u32,
) -> (outcome: Result<GpuTensor<F32, N>, WgpuError>)
    requires
        old(session).wf(),
        old(session).holds_tensor(*a),
        old(session).holds_tensor(*b),
        old(session).can_bind(*a),
        old(session).can_bind(*b),
        old(session).can_run_elementwise(product(a.dims())),
    ensures
        outcome matches Ok(output) && final(session).computed_elementwise(
            *old(session),
            op_kind,
            *a,
            *b,
            output,
        ),
{
    let ghost a_info = buffer_info(a.memory());
    let ghost b_info = buffer_info(b.memory());
    proof {
        (F32 { bits: 0 }).lemma_len();
        lemma_class_bounded(a_info.size);
        lemma_class_bounded(b_info.size);
    }
    let numel: u32 = product_of(a.shape().as_slice()) as u32;
    let byte_size_pad: u64 = padded_size(numel);
    let out_alloc = acquire_output(session, byte_size_pad);
    let ghost acquired = *session;
    proof {
        lemma_class_bounded(buffer_info(out_alloc.memory()).size);
        lemma_class_covers(byte_size_pad as nat);
        acquired.lemma_carried(*old(session), a.memory());
        acquired.lemma_carried(*old(session), b.memory());
        assert(old(session).live(a_info.id));
        assert(old(session).live(b_info.id));
    }
    compute_tensor_elementwise(
        session,
        src_buffer_tensor(a),
        src_buffer_tensor(b),
        out_alloc.gpu_buffer(),
        numel,
        op_kind,
    );
    proof {
        session.lemma_operated(
            acquired,
            *old(session),
            Kernel::TensorElementwise,
            elementwise_request(numel, op_kind, a.memory(), b.memory(), out_alloc.memory()),
            out_alloc.memory(),
        );
    }
    wrap_gpu_tensor(*a.shape(), *a.strides(), out_alloc)
}

/// Adds two GPU tensors elementwise.
pub fn add<const N: usize>(
    session: &mut WgpuSession,
    a: &GpuTensor<F32, N>,
    b: &GpuTensor<F32, N>,
) -> (outcome: Result<GpuTensor<F32, N>, WgpuError>)
    requires
        old(session).wf(),
        old(session).holds_tensor(*a),
        old(session).holds_tensor(*b),
        old(session).can_bind(*a),
        old(session).can_bind(*b),
        old(session).can_run_elementwise(product(a.dims())),
    ensures
        outcome matches Ok(output) && final(session).added(*old(session), *a, *b, output),
{
    elementwise(session, a, b, 0)
}

/// Applies the Rectified Linear Unit (ReLU) activation function elementwise.
pub fn relu<const N: usize>(session: &mut WgpuSession, a: &GpuTensor<F32, N>) -> (outcome: Result<
    GpuTensor<F32, N>,
    WgpuError,
>)
    requires
        old(session).wf(),
        old(session).holds_tensor(*a),
        old(session).can_bind(*a),
        old(session).can_run_elementwise(product(a.dims())),
    ensures
        outcome matches Ok(output) && final(session).rectified(*old(session), *a, output),
{
    elementwise(session, a, a, 9)
}

// ── What an elementwise operation does ───────────────────────────────────────

/// The arithmetic on singles, from bits to bits; its rounding is the machine's.
pub struct Arithmetic {
    pub sum: spec_fn(u32, u32) -> u32,
    pub difference: spec_fn(u32, u32) -> u32,
    pub product: spec_fn(u32, u32) -> u32,
    pub quotient: spec_fn(u32, u32) -> u32,
    pub larger: spec_fn(u32, u32) -> u32,
    pub magnitude: spec_fn(u32) -> u32,
    pub negation: spec_fn(u32) -> u32,
    pub square_root: spec_fn(u32) -> u32,
    pub exponential: spec_fn(u32) -> u32,
    pub logarithm: spec_fn(u32) -> u32,
}

impl Arithmetic {
    /// What the shader computes of an element of either operand, by the number of the operation. The
    /// bits of the single 0.0 are 0.
    pub open spec fn computed(self, op_kind: u32, a: u32, b: u32) -> u32 {
        if op_kind == 0 {
            (self.sum)(a, b)
        } else if op_kind == 1 {
            (self.difference)(a, b)
        } else if op_kind == 2 {
            (self.product)(a, b)
        } else if op_kind == 3 {
            (self.quotient)(a, b)
        } else if op_kind == 4 {
            (self.magnitude)(a)
        } else if op_kind == 5 {
            (self.negation)(a)
        } else if op_kind == 6 {
            (self.square_root)(a)
        } else if op_kind == 7 {
            (self.exponential)(a)
        } else if op_kind == 8 {
            (self.logarithm)(a)
        } else if op_kind == 9 {
            (self.larger)(0u32, a)
        } else {
            a
        }
    }
}

/// What the elementwise shader does in the invocation at `(x, y)` for one of the four elements it takes
/// at a time: the element of the output that it stores to, and the bits that it stores.
pub open spec fn elementwise_store(
    session: WgpuSession,
    dispatch: Dispatch,
    f: Arithmetic,
    x: nat,
    y: nat,
    lane: nat,
) -> Option<(nat, u32)> {
    let numel = session.parameter(dispatch, 0) as nat;
    let op_kind = session.parameter(dispatch, 1);
    let dispatch_x = session.parameter(dispatch, 2) as nat;
    let i = x + y * dispatch_x * 256;
    let vec4_count = (numel + 3) / 4;
    if i >= vec4_count || lane >= 4 {
        None
    } else {
        let e = 4 * i + lane;
        let av = session.bound_word(dispatch, 0, e);
        let bv = session.bound_word(dispatch, 1, e);
        Some((e, f.computed(op_kind, av, bv)))
    }
}

/// The elements fit in words, and so does the grid for them.
proof fn lemma_counts_of_elementwise(session: WgpuSession, numel: nat)
    requires
        session.can_run_elementwise(numel),
    ensures
        numel * 4 <= output_size(numel) <= u32::MAX,
        grid_for(workgroups_for(numel)).0 <= MAX_WORKGROUPS,
        grid_for(workgroups_for(numel)).1 <= u32::MAX,
{
    lemma_class_covers(output_size(numel));
    law_grid_covers_the_row(workgroups_for(numel), 0);
}

/// An elementwise operation hands over one dispatch. The first operand is bound to slot 0, the second
/// to slot 1, and the output to slot 2, and the fields of the parameters are the number of elements, the
/// number of the operation and the number of workgroups in a row of the grid.
pub proof fn law_elementwise_binds_both_operands<const N: usize>(
    before: WgpuSession,
    after: WgpuSession,
    op_kind: u32,
    a: GpuTensor<F32, N>,
    b: GpuTensor<F32, N>,
    output: GpuTensor<F32, N>,
)
    requires
        before.holds_tensor(a),
        before.holds_tensor(b),
        before.can_run_elementwise(product(a.dims())),
        after.computed_elementwise(before, op_kind, a, b, output),
    ensures
        after.handed_over_one(before),
        output.dims() == a.dims(),
        output.steps() == a.steps(),
        fitting(buffer_info(output.memory()).size, ((product(a.dims()) + 3) / 4 * 16) as nat),
        ({
            let dispatch = after.handed_over();
            &&& dispatch.program == Kernel::TensorElementwise.program(before.device.features)
            &&& dispatch.buffers[0] == buffer_info(a.memory()).id
            &&& dispatch.buffers[1] == buffer_info(b.memory()).id
            &&& dispatch.buffers[2] == buffer_info(output.memory()).id
            &&& dispatch.buffers[2] != dispatch.buffers[0]
            &&& dispatch.buffers[2] != dispatch.buffers[1]
            &&& after.parameter(dispatch, 0) == product(a.dims())
            &&& after.parameter(dispatch, 1) == op_kind
            &&& after.parameter(dispatch, 2) == dispatch.groups.0
            &&& dispatch.groups.2 == 1
        }),
{
    let numel = product(a.dims());
    lemma_counts_of_elementwise(before, numel);
    law_size_class_is_fitting(output_size(numel));
    let request = elementwise_request(
        numel as u32,
        op_kind,
        a.memory(),
        b.memory(),
        output.memory(),
    );
    let words = seq![numel as u32, op_kind, request.groups.0, 0u32];
    lemma_handed_over(
        before,
        after,
        Kernel::TensorElementwise,
        request.key,
        request.buffers,
        words,
        request.groups,
    );
    assert(request.buffers.contains_key(0) && request.buffers.contains_key(1));
    assert(request.buffers.contains_key(2));
    assert(before.live(buffer_info(a.memory()).id));
    assert(before.live(buffer_info(b.memory()).id));
}

/// An elementwise operation gives element `e` of the output what the operation is on the elements `e` of
/// the operands: exactly one invocation of the grid that is handed over stores to it, and no invocation
/// stores beyond the output's buffer.
#[verifier::spinoff_prover]
pub proof fn law_elementwise_computes_each_element<const N: usize>(
    before: WgpuSession,
    after: WgpuSession,
    op_kind: u32,
    a: GpuTensor<F32, N>,
    b: GpuTensor<F32, N>,
    output: GpuTensor<F32, N>,
    f: Arithmetic,
    e: nat,
    x: nat,
    y: nat,
    lane: nat,
)
    requires
        before.holds_tensor(a),
        before.holds_tensor(b),
        before.can_run_elementwise(product(a.dims())),
        after.computed_elementwise(before, op_kind, a, b, output),
        e < product(output.dims()),
    ensures
        ({
            let dispatch = after.handed_over();
            let width = dispatch.groups.0 as nat * 256;
            let quad = e / 4;
            let first = word_at(before.memory()[buffer_info(a.memory()).id], e);
            let second = word_at(before.memory()[buffer_info(b.memory()).id], e);
            &&& dispatch.program == Kernel::TensorElementwise.program(before.device.features)
            &&& dispatch.buffers[2] == buffer_info(output.memory()).id
            &&& quad % width < width && quad / width < dispatch.groups.1
            &&& tight(dispatch, 256, ((product(a.dims()) + 3) / 4) as nat)
            &&& elementwise_store(after, dispatch, f, quad % width, quad / width, e % 4) == Some(
                (e, f.computed(op_kind, first, second)),
            )
            &&& x < width && y < dispatch.groups.1 ==> match elementwise_store(
                after,
                dispatch,
                f,
                x,
                y,
                lane,
            ) {
                None => true,
                Some((target, _)) => target * 4 + 4 <= buffer_info(output.memory()).size && (target
                    == e ==> x == quad % width && y == quad / width && lane == e % 4),
            }
        }),
{
    let numel = product(a.dims());
    law_elementwise_binds_both_operands(before, after, op_kind, a, b, output);
    lemma_counts_of_elementwise(before, numel);
    lemma_class_covers(output_size(numel));
    let quad = e / 4;
    law_each_quad_has_one_invocation(numel as u32, quad, x, y);
    let dispatch = after.handed_over();
    let (wg_x, wg_y) = grid_for(workgroups_for(numel));
    assert(dispatch.groups == (wg_x as u32, wg_y as u32, 1u32));
    let width = wg_x * 256;
    let row = quad / width;
    assert(row * wg_x * 256 == row * width && y * wg_x * 256 == y * width) by (nonlinear_arith)
        requires
            width == wg_x * 256,
    ;
    assert(before.live(buffer_info(a.memory()).id));
    assert(before.live(buffer_info(b.memory()).id));
    lemma_quads(numel, quad, e % 4);
    lemma_grid_is_tight(groups_for(numel, 4), 256);
    assert(elementwise_store(after, dispatch, f, quad % width, row, e % 4) == Some(
        (
            e,
            f.computed(
                op_kind,
                word_at(before.memory()[buffer_info(a.memory()).id], e),
                word_at(before.memory()[buffer_info(b.memory()).id], e),
            ),
        ),
    ));
    let i = x + y * width;
    if lane < 4 && i < (numel + 3) / 4 {
        lemma_quads(numel, i, lane);
    }
}

/// The elements that are taken four at a time are within the output, and each is one of one four.
proof fn lemma_quads(numel: nat, quad: nat, lane: nat)
    requires
        quad < (numel + 3) / 4,
        lane < 4,
    ensures
        groups_for(numel, 4) == (numel + 3) / 4,
        (4 * quad + lane) * 4 + 4 <= output_size(numel),
        (4 * quad + lane) / 4 == quad,
        (4 * quad + lane) % 4 == lane,
{
}

/// Adding two tensors gives each element of the output the sum of the elements with its index in the
/// first and in the second.
pub proof fn law_add_sums_both_operands<const N: usize>(
    before: WgpuSession,
    after: WgpuSession,
    a: GpuTensor<F32, N>,
    b: GpuTensor<F32, N>,
    output: GpuTensor<F32, N>,
    f: Arithmetic,
    xs: Seq<F32>,
    ys: Seq<F32>,
    e: nat,
)
    requires
        before.holds_tensor(a),
        before.holds_tensor(b),
        before.can_run_elementwise(product(a.dims())),
        after.added(before, a, b, output),
        before.tensor_bytes(a) == bytes_of(xs),
        before.tensor_bytes(b) == bytes_of(ys),
        e < xs.len(),
        e < ys.len(),
    ensures
        ({
            let dispatch = after.handed_over();
            let width = dispatch.groups.0 as nat * 256;
            let quad = e / 4;
            &&& dispatch.buffers[0] == buffer_info(a.memory()).id
            &&& dispatch.buffers[1] == buffer_info(b.memory()).id
            &&& dispatch.buffers[2] == buffer_info(output.memory()).id
            &&& after.parameter(dispatch, 1) == 0
            &&& elementwise_store(after, dispatch, f, quad % width, quad / width, e % 4) == Some(
                (e, (f.sum)(xs[e as int].bits, ys[e as int].bits)),
            )
        }),
{
    lemma_operand_read(before, a, xs, e);
    lemma_operand_read(before, b, ys, e);
    law_elementwise_binds_both_operands(before, after, 0, a, b, output);
    law_elementwise_computes_each_element(before, after, 0, a, b, output, f, e, 0, 0, 0);
}

/// ReLU gives each element of the output the element with its index in the operand, or zero where that
/// is larger.
pub proof fn law_relu_cuts_off_below_zero<const N: usize>(
    before: WgpuSession,
    after: WgpuSession,
    a: GpuTensor<F32, N>,
    output: GpuTensor<F32, N>,
    f: Arithmetic,
    xs: Seq<F32>,
    e: nat,
)
    requires
        before.holds_tensor(a),
        before.can_run_elementwise(product(a.dims())),
        after.rectified(before, a, output),
        before.tensor_bytes(a) == bytes_of(xs),
        e < xs.len(),
    ensures
        ({
            let dispatch = after.handed_over();
            let width = dispatch.groups.0 as nat * 256;
            let quad = e / 4;
            &&& dispatch.buffers[0] == buffer_info(a.memory()).id
            &&& dispatch.buffers[2] == buffer_info(output.memory()).id
            &&& after.parameter(dispatch, 1) == 9
            &&& elementwise_store(after, dispatch, f, quad % width, quad / width, e % 4) == Some(
                (e, (f.larger)(0u32, xs[e as int].bits)),
            )
        }),
{
    lemma_operand_read(before, a, xs, e);
    law_elementwise_binds_both_operands(before, after, 9, a, a, output);
    law_elementwise_computes_each_element(before, after, 9, a, a, output, f, e, 0, 0, 0);
}

/// The words of an operand are the bits of its elements.
proof fn lemma_operand_read<const N: usize>(
    session: WgpuSession,
    tensor: GpuTensor<F32, N>,
    xs: Seq<F32>,
    e: nat,
)
    requires
        session.holds_tensor(tensor),
        session.tensor_bytes(tensor) == bytes_of(xs),
        e < xs.len(),
    ensures
        xs.len() == product(tensor.dims()),
        word_at(session.memory()[buffer_info(tensor.memory()).id], e) == xs[e as int].bits,
{
    (F32 { bits: 0 }).lemma_len();
    let n = product(tensor.dims());
    let memory = session.memory()[buffer_info(tensor.memory()).id];
    assert(n * F32::BYTES == n * 4) by (nonlinear_arith)
        requires
            F32::BYTES == 4,
    ;
    assert(bytes_of(xs).len() == xs.len() * 4) by (nonlinear_arith)
        requires
            bytes_of(xs).len() == xs.len() * (F32::BYTES as nat),
            F32::BYTES == 4,
    ;
    assert(memory.take((n * 4) as int).len() == n * 4);
    lemma_singles_read(memory, xs, n, e);
}

/// The text of the elementwise shader, paragraph by paragraph: its parameters and their order, its
/// invocation, and the statements that [`elementwise_store`] and [`Arithmetic::computed`] give the meaning
/// of.
pub proof fn law_elementwise_shader_text()
    ensures
        Kernel::TensorElementwise.body() == "\nstruct Params {\n    numel:   u32,  // original element count\n    op_kind: u32,\n    dispatch_x:u32,\n    _pad:    u32,\n}\nvar<immediate> p: Params;\n\n"@
            + "@compute @workgroup_size(256)\nfn main(@builtin(global_invocation_id) gid: vec3<u32>) {\n    let i = gid.x + gid.y * p.dispatch_x * 256u;\n\n"@
            + "    // Each thread handles 4 elements. Stop when we've covered all vec4 slots.\n    // numel is the original count — div_ceil(numel, 4) is the number of vec4s.\n    let vec4_count = (p.numel + 3u) / 4u;\n    if i >= vec4_count { return; }\n\n"@
            + "    let av = a[i];\n    let bv = b[i];\n    var res: vec4<f32>;\n\n"@
            + "    switch p.op_kind {\n        case 0u: { res = av + bv; }\n        case 1u: { res = av - bv; }\n        case 2u: { res = av * bv; }\n        case 3u: { res = av / bv; }\n        case 4u: { res = abs(av); }\n        case 5u: { res = -av; }\n        case 6u: { res = sqrt(av); }\n        case 7u: { res = exp(av); }\n        case 8u: { res = log(av); }\n        case 9u: { res = max(vec4(0.0), av); }\n        default: { res = av; }\n    }\n\n"@
            + "    out[i] = res;\n}\n"@,
{
    reveal_strlit(
        r#"
struct Params {
    numel:   u32,  // original element count
    op_kind: u32,
    dispatch_x:u32,
    _pad:    u32,
}
var<immediate> p: Params;

@compute @workgroup_size(256)
fn main(@builtin(global_invocation_id) gid: vec3<u32>) {
    let i = gid.x + gid.y * p.dispatch_x * 256u;

    // Each thread handles 4 elements. Stop when we've covered all vec4 slots.
    // numel is the original count — div_ceil(numel, 4) is the number of vec4s.
    let vec4_count = (p.numel + 3u) / 4u;
    if i >= vec4_count { return; }

    let av = a[i];
    let bv = b[i];
    var res: vec4<f32>;

    switch p.op_kind {
        case 0u: { res = av + bv; }
        case 1u: { res = av - bv; }
        case 2u: { res = av * bv; }
        case 3u: { res = av / bv; }
        case 4u: { res = abs(av); }
        case 5u: { res = -av; }
        case 6u: { res = sqrt(av); }
        case 7u: { res = exp(av); }
        case 8u: { res = log(av); }
        case 9u: { res = max(vec4(0.0), av); }
        default: { res = av; }
    }

    out[i] = res;
}
"#,
    );
    reveal_strlit("\nstruct Params {\n    numel:   u32,  // original element count\n    op_kind: u32,\n    dispatch_x:u32,\n    _pad:    u32,\n}\nvar<immediate> p: Params;\n\n");
    reveal_strlit("@compute @workgroup_size(256)\nfn main(@builtin(global_invocation_id) gid: vec3<u32>) {\n    let i = gid.x + gid.y * p.dispatch_x * 256u;\n\n");
    reveal_strlit("    // Each thread handles 4 elements. Stop when we've covered all vec4 slots.\n    // numel is the original count — div_ceil(numel, 4) is the number of vec4s.\n    let vec4_count = (p.numel + 3u) / 4u;\n    if i >= vec4_count { return; }\n\n");
    reveal_strlit("    let av = a[i];\n    let bv = b[i];\n    var res: vec4<f32>;\n\n");
    reveal_strlit("    switch p.op_kind {\n        case 0u: { res = av + bv; }\n        case 1u: { res = av - bv; }\n        case 2u: { res = av * bv; }\n        case 3u: { res = av / bv; }\n        case 4u: { res = abs(av); }\n        case 5u: { res = -av; }\n        case 6u: { res = sqrt(av); }\n        case 7u: { res = exp(av); }\n        case 8u: { res = log(av); }\n        case 9u: { res = max(vec4(0.0), av); }\n        default: { res = av; }\n    }\n\n");
    reveal_strlit("    out[i] = res;\n}\n");
}

/// The output has room for all elements in whole groups of four, and for no group more.
pub proof fn law_output_has_whole_groups(numel: nat, other: nat)
    requires
        other % 16 == 0,
        other >= numel * 4,
    ensures
        output_size(numel) % 16 == 0,
        numel * 4 <= output_size(numel) < numel * 4 + 16,
        output_size(numel) <= other,
        output_size(numel) == groups_for(numel, 4) * 16,
{
}

/// The elementwise operations share one pipeline, which the first of them compiles.
pub proof fn law_elementwise_is_compiled_once<const N: usize>(
    before: WgpuSession,
    after: WgpuSession,
    op_kind: u32,
    a: GpuTensor<F32, N>,
    b: GpuTensor<F32, N>,
    output: GpuTensor<F32, N>,
)
    requires
        before.wf(),
        after.computed_elementwise(before, op_kind, a, b, output),
    ensures
        ({
            let program = Kernel::TensorElementwise.program(before.device.features);
            let kept = Key {
                shader_name: "TensorElementwise"@,
                pixel_bytes: 4,
                channels: 1,
                wg_x: 64,
                wg_y: 1,
                variant: 0,
            };
            &&& after.device.cache().contains_key(kept)
            &&& after.device.cache()[kept].program == program
            &&& forall|key: Key|
                key != kept ==> (#[trigger] after.device.cache().contains_key(key)
                    <==> before.device.cache().contains_key(key))
            &&& after.gpu().compiled() == if before.device.cache().contains_key(kept) {
                before.gpu().compiled()
            } else {
                before.gpu().compiled().push(program)
            }
        }),
{
    lemma_kept_under(
        before,
        after,
        Kernel::TensorElementwise,
        elementwise_request(
            product(a.dims()) as u32,
            op_kind,
            a.memory(),
            b.memory(),
            output.memory(),
        ),
    );
}

/// An elementwise operation is possible on any device that runs the shader and takes a full grid, where a
/// power of two that is large enough for the output, in whole groups of four, is within its limits.
pub proof fn law_elementwise_is_possible_within_the_limits(
    session: WgpuSession,
    numel: nat,
    class: nat,
)
    requires
        Kernel::TensorElementwise.runs_on(session.device.limits, session.device.features),
        numel * 4 <= class,
        is_power_of_two(class),
        64 <= class <= session.device.limits.max_storage_buffer_binding_size,
        class <= session.device.limits.max_buffer_size,
        session.device.limits.max_compute_workgroups_per_dimension >= 65535,
    ensures
        session.can_run_elementwise(numel),
{
    lemma_class_in_groups(class);
    law_output_has_whole_groups(numel, class);
    law_allocations_reach_the_limit(session, output_size(numel), class);
    law_size_class_is_the_smallest(output_size(numel), class);
    if numel > 0 {
        lemma_groups_for(numel, 4);
        lemma_grid_is_tight(groups_for(numel, 4), 256);
    }
}

/// A power of two from 64 on is whole groups of 16.
proof fn lemma_class_in_groups(class: nat)
    requires
        is_power_of_two(class),
        class >= 16,
    ensures
        class % 16 == 0,
{
    reveal_with_fuel(is_power_of_two, 6);
}

} // verus!
