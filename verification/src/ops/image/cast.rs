//! Casts between pixel types.
use vstd::endian::{endianness, Endian};
use vstd::prelude::*;

use crate::bytes::{bytes_of, lemma_singles_read, lemma_word_bytes, word_at, F32, Plain};
use crate::error::WgpuError;
use crate::gpu::{buffer_info, size_of_buffer, write_buffer, Dispatch};
use crate::gpu_res::GpuImage;
use crate::host::{Image, ImageSize};
use crate::kernel::Kernel;
use crate::ops::{
    div_ceil, grid, grid_for, groups_for, kernel_request, law_grid_covers_the_row,
    law_rows_reach_each_index_once, lemma_grid_is_tight, lemma_groups_for, lemma_handed_over,
    lemma_kept_under, lemma_pair_bound, run, tight, Immediates, Request, MAX_WORKGROUPS,
};
use crate::pipeline::BoundBuffer;
use crate::pool::{
    after_release, after_reuse, capped, class_of, compute_use, fitting, is_power_of_two, kept,
    law_size_class_is_fitting, law_size_class_is_monotone, law_size_class_is_stable, law_size_class_is_the_smallest, lemma_class_covers, size_class,
};
use crate::session::{
    law_allocations_reach_the_limit, lemma_class_bounded, COMPUTE_BUFFERS_PER_CLASS, WgpuSession,
};
use crate::shader::{falls_back, Key, PipelineKey};
use crate::transfer::{
    acquire_output, align_up, aligned, byte_countable, checked_len, lemma_one_buffer_touched,
    padded, src_buffer, wrap_gpu_buffer,
};

verus! {

/// Unpacks four `u8` components from each word and scales them.
pub const CAST_U8_TO_F32_WGSL: &'static str = r#"
struct Params {
    numel: u32,
    scale: f32,
    _pad: vec2<u32>,
}
var<immediate> p: Params;

@compute @workgroup_size(64)
fn main(
    @builtin(global_invocation_id) gid: vec3<u32>,
    @builtin(num_workgroups) groups: vec3<u32>,
) {
    let i = gid.x + gid.y * groups.x * 64u;
    if i >= p.numel { return; }

    let word  = i / 4u;
    let shift = (i % 4u) * 8u;
    let byte  = (input_u8[word] >> shift) & 0xFFu;

    output_f32[i] = f32(byte) * p.scale;
}
"#;

/// Saturates four components to the unit interval and packs them into one word of `u8`s.
pub const CAST_F32_TO_U8_WGSL: &'static str = r#"
struct Params {
    numel: u32,   // total number of f32 elements (= W * H * C)
    scale: f32,   // unused for this direction; kept for layout compatibility
    _pad: vec2<u32>,
}
var<immediate> p: Params;

@compute @workgroup_size(64)
fn main(
    @builtin(global_invocation_id) gid: vec3<u32>,
    @builtin(num_workgroups) groups: vec3<u32>,
) {
    // Each thread packs 4 consecutive f32s into one u32 output word.
    let word = gid.x + gid.y * groups.x * 64u;

    // Total number of u32 words needed to cover all elements.
    let word_count = (p.numel + 3u) / 4u;
    if word >= word_count { return; }

    let base = word * 4u;

    // Read 4 f32 values; pad with 0.0 if we are in the tail word.
    var v: vec4<f32>;
    v.x = select(0.0, input_f32[base + 0u], base + 0u < p.numel);
    v.y = select(0.0, input_f32[base + 1u], base + 1u < p.numel);
    v.z = select(0.0, input_f32[base + 2u], base + 2u < p.numel);
    v.w = select(0.0, input_f32[base + 3u], base + 3u < p.numel);

    // pack4x8unorm: saturates to [0, 1], multiplies by 255, rounds, packs
    // four bytes into a u32 (little-endian: byte 0 = least-significant byte).
    output_u8[word] = pack4x8unorm(v);
}
"#;

/// Interoperability parameters for cast shaders; both directions use the same.
#[derive(Copy, Clone, Debug)]
pub struct CastParams {
    pub numel: u32,
    pub scale: F32,
    pub _pad: [u32; 2],
}

impl Immediates for CastParams {
    open spec fn words(&self) -> Seq<u32> {
        seq![self.numel, self.scale.bits, self._pad@[0], self._pad@[1]]
    }

    fn to_words(&self) -> (words: Vec<u32>) {
        let words = vec![self.numel, self.scale.bits, self._pad[0], self._pad[1]];
        assert(words@ =~= self.words());
        words
    }
}

/// The bits of 1 / 255.
pub const SCALE_U8_TO_F32: u32 = 0x3b80_8081;

/// The bits of 255.
pub const SCALE_F32_TO_U8: u32 = 0x437f_0000;

/// What a cast hands over: the shader reads one buffer and writes another, with `invocations`
/// invocations in workgroups of 64.
pub open spec fn cast_request(
    kernel: Kernel,
    key: Key,
    numel: nat,
    scale: u32,
    invocations: nat,
    in_buffer: wgpu::Buffer,
    out_buffer: wgpu::Buffer,
) -> Request {
    let (wg_x, wg_y) = grid_for(groups_for(invocations, 64));
    kernel_request(
        kernel,
        key,
        map![0u32 => buffer_info(in_buffer), 1u32 => buffer_info(out_buffer)],
        seq![numel as u32, scale, 0u32, 0u32],
        (wg_x as u32, wg_y as u32),
    )
}

/// The key that the pipeline of a cast is kept under.
pub open spec fn cast_key(kernel: Kernel, pixel_bytes: u8, channels: usize) -> Key {
    Key {
        shader_name: kernel.kind().name,
        pixel_bytes,
        channels: channels as u8,
        wg_x: 64,
        wg_y: 1,
        variant: 0,
    }
}

/// Each index below `invocations` is that of exactly one invocation of a cast: the shader's index
/// `x + y * groups.x * 64` reaches it once.
pub proof fn law_each_index_has_one_invocation(invocations: nat, index: nat, x: nat, y: nat)
    requires
        index < invocations,
        invocations <= u32::MAX,
    ensures
        ({
            let (wg_x, wg_y) = grid_for(groups_for(invocations, 64));
            let width = wg_x * 64;
            &&& wg_x <= MAX_WORKGROUPS
            &&& wg_y <= MAX_WORKGROUPS
            &&& width > 0
            &&& index % width < width
            &&& index / width < wg_y
            &&& (index % width) + (index / width) * width == index
            &&& x < width && x + y * width == index ==> x == index % width && y == index / width
        }),
{
    let total = groups_for(invocations, 64);
    let (wg_x, wg_y) = grid_for(total);
    lemma_groups_for(invocations, 64);
    law_grid_covers_the_row(total, 0);
    let width = wg_x * 64;
    assert(index < width * wg_y) by (nonlinear_arith)
        requires
            index < invocations,
            invocations <= total * 64,
            total <= wg_x * wg_y,
            width == wg_x * 64,
    ;
    assert(width > 0) by (nonlinear_arith)
        requires
            index < width * wg_y,
            index >= 0,
            wg_y >= 0,
            width >= 0,
    ;
    law_rows_reach_each_index_once(index, width, wg_y, x, y);
}

impl WgpuSession {
    /// The device runs a cast with that many invocations.
    pub open spec fn can_cast(self, kernel: Kernel, invocations: nat) -> bool {
        let limits = self.device.limits;
        let (wg_x, wg_y) = grid_for(groups_for(invocations, 64));
        &&& kernel.runs_on(limits, self.device.features)
        &&& wg_x <= limits.max_compute_workgroups_per_dimension
        &&& wg_y <= limits.max_compute_workgroups_per_dimension
    }

    /// Whether the device runs a cast with that many invocations.
    fn allows_cast(&self, kernel: Kernel, invocations: u32) -> (allowed: bool)
        ensures
            allowed == self.can_cast(kernel, invocations as nat),
    {
        let limits = self.device.limits;
        let (wg_x, wg_y) = grid(div_ceil(invocations, 64));
        kernel.is_supported(limits, self.device.features) && wg_x
            <= limits.max_compute_workgroups_per_dimension && wg_y
            <= limits.max_compute_workgroups_per_dimension
    }

    /// An image of `u8`s of the given size can be cast: it has pixels, the device runs the shader
    /// and binds both buffers, and both can be allocated.
    pub open spec fn can_cast_to_f32(self, size: ImageSize, channels: usize) -> bool {
        let numel = size.numel(channels);
        let limits = self.device.limits;
        &&& numel > 0
        &&& byte_countable::<F32>(size, channels)
        &&& self.can_cast(Kernel::CastU8ToF32, numel)
        &&& self.can_allocate(numel * 4)
        &&& size_class(numel * 4) <= limits.max_storage_buffer_binding_size
    }

    /// Whether an image of `u8`s of the given size can be cast.
    #[verifier::spinoff_prover]
    pub fn allows_cast_to_f32(&self, size: ImageSize, channels: usize) -> (allowed: bool)
        ensures
            allowed == self.can_cast_to_f32(size, channels),
    {
        proof {
            (F32 { bits: 0 }).lemma_len();
            lemma_class_covers(size.numel(channels) * 4);
        }
        let limits = self.device.limits;
        let n: u64 = match checked_len::<F32>(size, channels) {
            None => return false,
            Some(n) => n as u64,
        };
        0 < n && self.allows_buffer(n) && class_of(n)
            <= limits.max_storage_buffer_binding_size as u64 && self.allows_cast(
            Kernel::CastU8ToF32,
            (n / 4) as u32,
        )
    }

    /// An image of the session can be cast: the device runs the shader and binds both buffers, and
    /// the output can be allocated.
    pub open spec fn can_cast_to_u8<const C: usize>(self, input: GpuImage<F32, C>) -> bool {
        let numel = input.dims().numel(C);
        let limits = self.device.limits;
        &&& buffer_info(input.memory()).size <= limits.max_storage_buffer_binding_size
        &&& self.can_cast(Kernel::CastF32ToU8, groups_for(numel, 4))
        &&& self.can_allocate(aligned(numel))
        &&& size_class(aligned(numel))
            <= limits.max_storage_buffer_binding_size
    }

    /// Whether an image of the session can be cast.
    #[verifier::spinoff_prover]
    pub fn allows_cast_to_u8<const C: usize>(&self, input: &GpuImage<F32, C>) -> (allowed: bool)
        requires
            self.holds_image(*input),
        ensures
            allowed == self.can_cast_to_u8(*input),
    {
        proof {
            (F32 { bits: 0 }).lemma_len();
            lemma_class_bounded(buffer_info(input.memory()).size);
        }
        let limits = self.device.limits;
        let size: ImageSize = input.size();
        let numel: usize = size.count(C);
        if size_of_buffer(src_buffer(input)) > limits.max_storage_buffer_binding_size as u64 {
            return false;
        }
        assert(input.byte_len() == input.dims().numel(C) * F32::BYTES);
        assert(numel as nat * F32::BYTES == numel as nat * 4) by (nonlinear_arith)
            requires
                F32::BYTES == 4,
        ;
        assert(input.byte_len() <= u32::MAX);
        assert(numel * 4 <= u32::MAX);
        let n: u64 = align_up(numel as u64);
        self.allows_cast(Kernel::CastF32ToU8, div_ceil(numel as u32, 4)) && self.allows_buffer(n)
            && class_of(n) <= limits.max_storage_buffer_binding_size as u64
    }
}

/// Hands a cast over.
#[verifier::spinoff_prover]
fn cast(
    session: &mut WgpuSession,
    kernel: Kernel,
    source: &str,
    label: &str,
    in_buffer: &wgpu::Buffer,
    out_buffer: &wgpu::Buffer,
    pixel_bytes: u8,
    channels: u8,
    params: CastParams,
    invocations: u32,
)
    requires
        old(session).wf(),
        kernel == Kernel::CastU8ToF32 || kernel == Kernel::CastF32ToU8,
        source@ == kernel.body(),
        old(session).can_cast(kernel, invocations as nat),
        old(session).bindable(kernel, *in_buffer),
        old(session).bindable(kernel, *out_buffer),
        buffer_info(*in_buffer).id != buffer_info(*out_buffer).id,
        params._pad@ == seq![0u32, 0u32],
    ensures
        final(session).wf(),
        final(session).ran_kernel(
            *old(session),
            kernel,
            cast_request(
                kernel,
                Key {
                    shader_name: kernel.kind().name,
                    pixel_bytes,
                    channels,
                    wg_x: 64,
                    wg_y: 1,
                    variant: 0,
                },
                params.numel as nat,
                params.scale.bits,
                invocations as nat,
                *in_buffer,
                *out_buffer,
            ),
            buffer_info(*out_buffer).id,
        ),
{
    let kind = kernel.shader_kind();
    let key = PipelineKey {
        shader_name: kind.name(),
        pixel_bytes,
        channels,
        wg_x: 64,
        wg_y: 1,
        variant: 0,
    };
    let words: Vec<u32> = params.to_words();
    let (wg_x, wg_y) = grid(div_ceil(invocations, 64));
    let mut entries: Vec<BoundBuffer<'_>> = Vec::new();
    entries.push(BoundBuffer { slot: 0, buffer: in_buffer });
    entries.push(BoundBuffer { slot: 1, buffer: out_buffer });
    proof {
        law_grid_covers_the_row(groups_for(invocations as nat, 64), 0);
        lemma_pair_bound(entries@, *in_buffer, *out_buffer);
    }
    run(session, kernel, key, source, label, Some(label), &entries, words.as_slice(), (wg_x, wg_y));
}

/// The stock once a buffer of a class was taken, which is a new one where none is kept.
pub open spec fn taken(stock: Map<u64, Seq<wgpu::Buffer>>, class: u64) -> Map<
    u64,
    Seq<wgpu::Buffer>,
> {
    if kept(stock, class).len() > 0 {
        after_reuse(stock, class)
    } else {
        stock
    }
}

impl WgpuSession {
    /// The pool keeps a buffer of the first class and, besides it, one of the second, and parameters
    /// can be passed without a new buffer.
    pub open spec fn is_warm(self, first: u64, second: u64) -> bool {
        &&& kept(self.compute_pool@, first).len() > 0
        &&& kept(taken(self.compute_pool@, first), second).len() > 0
        &&& self.device.features.immediates || self.parameters is Some
    }

    /// The cast went through an upload buffer that holds the bytes: it was taken from the pool, then
    /// so was the output, and then the upload buffer was given back. Nothing was created but what
    /// the pool did not keep.
    pub open spec fn cast_through(
        self,
        before: WgpuSession,
        upload: wgpu::Buffer,
        output: wgpu::Buffer,
        bytes: Seq<u8>,
        request: Request,
    ) -> bool {
        let (up, out) = (buffer_info(upload), buffer_info(output));
        let first = taken(before.compute_pool@, up.size);
        let features = before.device.features;
        let n = request.parameters.len();
        let with_upload = if kept(before.compute_pool@, up.size).len() > 0 {
            before.memory().dom()
        } else {
            before.memory().dom().insert(up.id)
        };
        let with_output = if kept(first, out.size).len() > 0 {
            with_upload
        } else {
            with_upload.insert(out.id)
        };
        &&& up.id != out.id
        &&& !before.live(up.id)
        &&& up.size == size_class(bytes.len())
        &&& up.usage == compute_use()
        &&& kept(before.compute_pool@, up.size).len() > 0 ==> upload == kept(
            before.compute_pool@,
            up.size,
        ).last()
        &&& kept(first, out.size).len() > 0 ==> output == kept(first, out.size).last()
        &&& self.memory()[up.id].len() == up.size
        &&& self.memory()[up.id].take(bytes.len() as int) == bytes
        &&& self.compute_pool@ == after_release(
            taken(first, out.size),
            COMPUTE_BUFFERS_PER_CLASS as nat,
            upload,
        )
        &&& self.worked(before, Kernel::CastU8ToF32, request)
        &&& self.memory().dom() == if falls_back(features, n) && !before.has_parameters(n) {
            with_output.insert(self.parameter_id())
        } else {
            with_output
        }
    }
}

impl WgpuSession {
    /// This is `before` with a cast of an image of `u8`s handed over.
    pub open spec fn cast_to_f32<const C: usize>(
        self,
        before: WgpuSession,
        cpu_image: Image<u8, C>,
        output: GpuImage<F32, C>,
    ) -> bool {
        let numel = cpu_image.dims().numel(C);
        &&& self.wf()
        &&& self.carries(before)
        &&& output.dims() == cpu_image.dims()
        &&& self.holds_image(output)
        &&& !before.live(buffer_info(output.memory()).id)
        &&& buffer_info(output.memory()).size == size_class(output.byte_len())
        &&& exists|upload: wgpu::Buffer| #[trigger]
            self.cast_through(
                before,
                upload,
                output.memory(),
                padded(cpu_image.pixels()),
                cast_request(
                    Kernel::CastU8ToF32,
                    cast_key(Kernel::CastU8ToF32, 1, C),
                    numel,
                    SCALE_U8_TO_F32,
                    numel,
                    upload,
                    output.memory(),
                ),
            )
        &&& before.is_warm(size_class(aligned(numel)) as u64, size_class(numel * 4) as u64)
            ==> self.memory().dom() == before.memory().dom()
    }

    /// This is `before` with a cast of an image of singles handed over.
    pub open spec fn cast_to_u8<const C: usize>(
        self,
        before: WgpuSession,
        input: GpuImage<F32, C>,
        output: GpuImage<u8, C>,
    ) -> bool {
        let numel = input.dims().numel(C);
        let request = cast_request(
            Kernel::CastF32ToU8,
            cast_key(Kernel::CastF32ToU8, 4, C),
            numel,
            SCALE_F32_TO_U8,
            groups_for(numel, 4),
            input.memory(),
            output.memory(),
        );
        &&& self.operated(before, Kernel::CastF32ToU8, request, output.memory())
        &&& output.dims() == input.dims()
        &&& self.holds_image(output)
        &&& buffer_info(output.memory()).size == size_class(aligned(numel))
    }
}

/// A cast of a fixed size allocates nothing once it is warm: after one whose output was given back the
/// session is warm for the next of its size, which then, as [`cast_u8_to_f32_gpu`] says, creates no
/// buffer.
pub proof fn law_next_cast_allocates_nothing(
    before: WgpuSession,
    cast: WgpuSession,
    released: WgpuSession,
    upload: wgpu::Buffer,
    output: wgpu::Buffer,
    bytes: Seq<u8>,
    request: Request,
)
    requires
        before.wf(),
        cast.cast_through(before, upload, output, bytes, request),
        request.parameters.len() > 0,
        size_class(buffer_info(output).size as nat) == buffer_info(output).size,
        released.compute_pool@ == after_release(
            cast.compute_pool@,
            COMPUTE_BUFFERS_PER_CLASS as nat,
            output,
        ),
        released.parameters == cast.parameters,
        released.device.features == before.device.features,
    ensures
        released.is_warm(buffer_info(upload).size, buffer_info(output).size),
{
    law_size_class_is_stable(bytes.len());
    lemma_both_kept(before.compute_pool@, upload, output);
}

/// Where two buffers were taken from a stock and given back, the stock keeps both.
proof fn lemma_both_kept(
    stock: Map<u64, Seq<wgpu::Buffer>>,
    upload: wgpu::Buffer,
    output: wgpu::Buffer,
)
    requires
        capped(stock, COMPUTE_BUFFERS_PER_CLASS as nat),
        size_class(buffer_info(upload).size as nat) == buffer_info(upload).size,
        size_class(buffer_info(output).size as nat) == buffer_info(output).size,
    ensures
        ({
            let (up, out) = (buffer_info(upload).size, buffer_info(output).size);
            let max = COMPUTE_BUFFERS_PER_CLASS as nat;
            let cast = after_release(taken(taken(stock, up), out), max, upload);
            let released = after_release(cast, max, output);
            &&& kept(released, up).len() > 0
            &&& kept(taken(released, up), out).len() > 0
        }),
{
}

/// Casts a CPU `u8` image to a GPU `f32` image, scaling pixel values to `[0.0, 1.0]`.
///
/// The raw u8 bytes are packed 4-per-u32 and uploaded directly. The WGSL
/// shader unpacks each byte and divides by 255, eliminating the CPU cast
/// bottleneck entirely.
#[verifier::spinoff_prover]
pub fn cast_u8_to_f32_gpu<const C: usize>(
    session: &mut WgpuSession,
    cpu_image: &Image<u8, C>,
) -> (outcome: Result<GpuImage<F32, C>, WgpuError>)
    requires
        old(session).wf(),
        old(session).can_cast_to_f32(cpu_image.dims(), C),
    ensures
        outcome matches Ok(output) && final(session).cast_to_f32(*old(session), *cpu_image, output),
{
    proof {
        (F32 { bits: 0 }).lemma_len();
        0u8.lemma_len();
        lemma_class_covers(cpu_image.dims().numel(C) * 4);
        lemma_class_covers(aligned(cpu_image.dims().numel(C)));
        law_size_class_is_monotone(
            aligned(cpu_image.dims().numel(C)),
            cpu_image.dims().numel(C) * 4,
        );
    }
    let size: ImageSize = cpu_image.size();
    let numel: usize = size.count(C);

    let upload_byte_size: u64 = align_up(numel as u64);
    let upload_alloc = session.acquire_compute(upload_byte_size);
    let ghost upload = upload_alloc.memory();
    let ghost up = buffer_info(upload);
    let ghost first = *session;
    let mut raw: Vec<u8> = vstd::slice::slice_to_vec(cpu_image.as_slice());
    if numel % 4 != 0 {
        raw.resize(upload_byte_size as usize, 0u8);
    }
    assert(raw@ =~= padded(cpu_image.pixels()));
    write_buffer(&mut session.device.gpu, upload_alloc.gpu_buffer(), raw.as_slice());
    let ghost written = *session;
    proof {
        assert(first.live(up.id));
        assert(written.memory().dom() =~= first.memory().dom());
        lemma_one_buffer_touched(first, written, up.id);
        assert(written.memory()[up.id].take(upload_byte_size as int) =~= padded(
            cpu_image.pixels(),
        ));
        lemma_class_bounded(up.size);
    }

    let out_byte_size: u64 = (numel * 4) as u64;
    let output_alloc = acquire_output(session, out_byte_size);
    let ghost output = output_alloc.memory();
    let ghost acquired = *session;
    proof {
        lemma_class_bounded(buffer_info(output).size);
        assert(written.holds(upload));
        acquired.lemma_carried(written, upload);
        assert(acquired.live(buffer_info(output).id));
    }
    let params = CastParams {
        numel: numel as u32,
        scale: F32 { bits: SCALE_U8_TO_F32 },
        _pad: [0, 0],
    };
    assert(params._pad@ =~= seq![0u32, 0u32]);
    cast(
        session,
        Kernel::CastU8ToF32,
        CAST_U8_TO_F32_WGSL,
        "cast-u8-to-f32",
        upload_alloc.gpu_buffer(),
        output_alloc.gpu_buffer(),
        1,
        C as u8,
        params,
        numel as u32,
    );
    let ghost request = cast_request(
        Kernel::CastU8ToF32,
        cast_key(Kernel::CastU8ToF32, 1, C),
        numel as nat,
        SCALE_U8_TO_F32,
        numel as nat,
        upload,
        output,
    );
    let ghost ran = *session;
    proof {
        session.lemma_operated(acquired, written, Kernel::CastU8ToF32, request, output);
        assert(acquired.live(up.id));
        assert(ran.live(up.id));
        assert(ran.memory()[up.id] == acquired.memory()[up.id]);
        assert(ran.holds(upload));
    }
    session.release(upload_alloc);
    proof {
        assert(session.carries(*old(session))) by {
            assert forall|id: nat| #[trigger] old(session).live(id) implies session.live(id)
                && session.memory()[id] == old(session).memory()[id] && (
            session.gpu().mapped().contains_key(id) <==> old(session).gpu().mapped().contains_key(
                id,
            )) by {
                assert(first.live(id) && written.live(id) && acquired.live(id));
                assert(ran.live(id));
            }
        }
        lemma_word_bytes(seq![numel as u32, SCALE_U8_TO_F32, 0u32, 0u32]);
        assert(session.cast_through(
            *old(session),
            upload,
            output,
            padded(cpu_image.pixels()),
            request,
        ));
    }
    wrap_gpu_buffer(size, output_alloc)
}

/// Casts a GPU `f32` image to a GPU `u8` image entirely on the GPU.
///
/// This is the inverse of [`cast_u8_to_f32_gpu`]. Values are saturated to `[0.0, 1.0]` before
/// conversion; the shader clamps, scales and packs four bytes at a time. The returned image can be
/// downloaded with [`image_to_cpu`](crate::transfer::image_to_cpu).
#[verifier::spinoff_prover]
pub fn cast_f32_to_u8_gpu<const C: usize>(
    session: &mut WgpuSession,
    input: &GpuImage<F32, C>,
) -> (outcome: Result<GpuImage<u8, C>, WgpuError>)
    requires
        old(session).wf(),
        old(session).holds_image(*input),
        old(session).can_cast_to_u8(*input),
    ensures
        outcome matches Ok(output) && final(session).cast_to_u8(*old(session), *input, output),
{
    let ghost in_info = buffer_info(input.memory());
    proof {
        (F32 { bits: 0 }).lemma_len();
        0u8.lemma_len();
        lemma_class_bounded(in_info.size);
    }
    let size: ImageSize = input.size();
    let numel: usize = size.count(C);
    let out_byte_size: u64 = align_up(numel as u64);
    let u32_count: u32 = div_ceil(numel as u32, 4);
    let output_alloc = acquire_output(session, out_byte_size);
    let ghost acquired = *session;
    proof {
        lemma_class_bounded(buffer_info(output_alloc.memory()).size);
        lemma_class_covers(out_byte_size as nat);
        acquired.lemma_carried(*old(session), input.memory());
        assert(old(session).live(in_info.id));
    }
    let params = CastParams {
        numel: numel as u32,
        scale: F32 { bits: SCALE_F32_TO_U8 },
        _pad: [0, 0],
    };
    assert(params._pad@ =~= seq![0u32, 0u32]);
    cast(
        session,
        Kernel::CastF32ToU8,
        CAST_F32_TO_U8_WGSL,
        "cast-f32-to-u8",
        src_buffer(input),
        output_alloc.gpu_buffer(),
        4,
        C as u8,
        params,
        u32_count,
    );
    proof {
        let request = cast_request(
            Kernel::CastF32ToU8,
            cast_key(Kernel::CastF32ToU8, 4, C),
            numel as nat,
            SCALE_F32_TO_U8,
            u32_count as nat,
            input.memory(),
            output_alloc.memory(),
        );
        session.lemma_operated(
            acquired,
            *old(session),
            Kernel::CastF32ToU8,
            request,
            output_alloc.memory(),
        );
    }
    wrap_gpu_buffer(size, output_alloc)
}

// ── What a cast does ─────────────────────────────────────────────────────────

/// The byte that `(word >> (j * 8)) & 0xFF` is.
pub open spec fn lane(word: u32, j: nat) -> u8 {
    if j == 0 {
        (word % 256) as u8
    } else if j == 1 {
        (word / 256 % 256) as u8
    } else if j == 2 {
        (word / 65536 % 256) as u8
    } else {
        (word / 16777216) as u8
    }
}

/// On a machine that has the least significant byte of a word first, the lanes of the words in memory
/// are its bytes.
pub proof fn law_lanes_are_the_bytes(memory: Seq<u8>, i: nat)
    requires
        endianness() == Endian::Little,
    ensures
        lane(word_at(memory, i / 4), i % 4) == memory[i as int],
{
    let k = 4 * (i / 4) as int;
    lemma_lanes(
        memory[k],
        memory[k + 1],
        memory[k + 2],
        memory[k + 3],
        word_at(memory, i / 4),
    );
    let j = i % 4;
    assert(i == k + j && (j == 0 || j == 1 || j == 2 || j == 3));
}

/// The lanes of a word are the bytes that it is put together from.
proof fn lemma_lanes(a: u8, b: u8, c: u8, d: u8, word: u32)
    requires
        word == (a + 256 * b + 65536 * c + 16777216 * d) as u32,
    ensures
        lane(word, 0) == a,
        lane(word, 1) == b,
        lane(word, 2) == c,
        lane(word, 3) == d,
{
    assert((word % 256) as u8 == a && (word / 256 % 256) as u8 == b && (word / 65536 % 256) as u8 == c
        && (word / 16777216) as u8 == d) by (bit_vector)
        requires
            word == (a + 256 * b + 65536 * c + 16777216 * d) as u32,
    ;
}

/// What the shader that unpacks bytes does in the invocation at `(x, y)`: the component of the output
/// that it stores to, and the bits that it stores. The rounding is the machine's: `product` is
/// `f32(byte) * scale`, of a byte and of the bits of the scale.
pub open spec fn unpack_store(
    session: WgpuSession,
    dispatch: Dispatch,
    product: spec_fn(u8, u32) -> u32,
    x: nat,
    y: nat,
) -> Option<(nat, u32)> {
    let numel = session.parameter(dispatch, 0) as nat;
    let scale = session.parameter(dispatch, 1);
    let i = x + y * (dispatch.groups.0 as nat) * 64;
    if i >= numel {
        None
    } else {
        let byte = lane(session.bound_word(dispatch, 0, i / 4), i % 4);
        Some((i, product(byte, scale)))
    }
}

/// A cast to `f32` hands over one dispatch, which reads the bytes of the image and writes the output.
/// The fields of its parameters are the number of components and the single that is nearest to
/// 1 / 255: with its exponent, its significand is less than half a unit away.
#[verifier::spinoff_prover]
pub proof fn law_cast_to_f32_passes_the_count_and_the_scale<const C: usize>(
    before: WgpuSession,
    after: WgpuSession,
    cpu_image: Image<u8, C>,
    output: GpuImage<F32, C>,
)
    requires
        before.can_cast_to_f32(cpu_image.dims(), C),
        after.cast_to_f32(before, cpu_image, output),
    ensures
        after.handed_over_one(before),
        ({
            let dispatch = after.handed_over();
            let size = cpu_image.dims();
            let scale = after.parameter(dispatch, 1);
            let significand = 8388608 + scale % 8388608;
            &&& dispatch.program == Kernel::CastU8ToF32.program(before.device.features)
            &&& dispatch.buffers[1] == buffer_info(output.memory()).id
            &&& dispatch.buffers[0] != dispatch.buffers[1]
            &&& after.parameter(dispatch, 0) == size.width * size.height * C
            &&& scale == 0x3b80_8081
            &&& scale / 8388608 == 150 - 31
            &&& -255 < 2 * (significand * 255 - 2147483648) < 255
            &&& output.dims() == size
            &&& fitting(buffer_info(output.memory()).size, size.numel(C) * 4)
            &&& forall|i: int|
                0 <= i < cpu_image.pixels().len() ==> after.memory()[dispatch.buffers[0]][i]
                    == #[trigger] cpu_image.pixels()[i]
        }),
{
    let numel = cpu_image.dims().numel(C);
    let upload = choose|upload: wgpu::Buffer| #[trigger]
        after.cast_through(
            before,
            upload,
            output.memory(),
            padded(cpu_image.pixels()),
            cast_request(
                Kernel::CastU8ToF32,
                cast_key(Kernel::CastU8ToF32, 1, C),
                numel,
                SCALE_U8_TO_F32,
                numel,
                upload,
                output.memory(),
            ),
        );
    let kernel = Kernel::CastU8ToF32;
    let request = cast_request(
        kernel,
        cast_key(kernel, 1, C),
        numel,
        SCALE_U8_TO_F32,
        numel,
        upload,
        output.memory(),
    );
    let words = seq![numel as u32, SCALE_U8_TO_F32, 0u32, 0u32];
    lemma_handed_over(before, after, kernel, request.key, request.buffers, words, request.groups);
    assert(request.buffers.contains_key(0) && request.buffers.contains_key(1));
    (F32 { bits: 0 }).lemma_len();
    lemma_counts_of_casts(numel);
    lemma_class_covers(numel * 4);
    law_size_class_is_fitting(numel * 4);
    let memory = after.memory()[buffer_info(upload).id];
    let bytes = padded(cpu_image.pixels());
    lemma_class_covers(bytes.len());
    assert forall|i: int| 0 <= i < cpu_image.pixels().len() implies memory[i]
        == #[trigger] cpu_image.pixels()[i] by {
        assert(memory.take(bytes.len() as int) == bytes);
        assert(bytes[i] == cpu_image.pixels()[i]);
    }
}

/// The grid of a cast has all its invocations, and in words.
proof fn lemma_cast_grid(invocations: nat)
    requires
        invocations <= u32::MAX,
    ensures
        ({
            let (wg_x, wg_y) = grid_for(groups_for(invocations, 64));
            wg_x <= MAX_WORKGROUPS && wg_y <= MAX_WORKGROUPS
        }),
{
    lemma_groups_for(invocations, 64);
    law_grid_covers_the_row(groups_for(invocations, 64), 0);
}

/// A cast to `f32` gives component `i` of the output the byte `i` of the image, scaled by the single
/// nearest to 1 / 255: exactly one invocation of the grid that is handed over stores to it, and no
/// invocation stores beyond the output.
#[verifier::spinoff_prover]
pub proof fn law_cast_to_f32_scales_each_byte<const C: usize>(
    before: WgpuSession,
    after: WgpuSession,
    cpu_image: Image<u8, C>,
    output: GpuImage<F32, C>,
    product: spec_fn(u8, u32) -> u32,
    i: nat,
    x: nat,
    y: nat,
)
    requires
        endianness() == Endian::Little,
        cpu_image.pixels().len() == cpu_image.dims().numel(C),
        before.can_cast_to_f32(cpu_image.dims(), C),
        after.cast_to_f32(before, cpu_image, output),
        i < cpu_image.pixels().len(),
    ensures
        ({
            let dispatch = after.handed_over();
            let width = dispatch.groups.0 as nat * 64;
            let stored = product(cpu_image.pixels()[i as int], 0x3b80_8081);
            &&& dispatch.program == Kernel::CastU8ToF32.program(before.device.features)
            &&& dispatch.buffers[1] == buffer_info(output.memory()).id
            &&& dispatch.groups.2 == 1
            &&& i % width < width && i / width < dispatch.groups.1
            &&& tight(dispatch, 64, cpu_image.pixels().len())
            &&& unpack_store(after, dispatch, product, i % width, i / width) == Some((i, stored))
            &&& x < width && y < dispatch.groups.1 ==> match unpack_store(
                after,
                dispatch,
                product,
                x,
                y,
            ) {
                None => true,
                Some((target, _)) => target < cpu_image.pixels().len() && (target == i ==> x == i
                    % width && y == i / width),
            }
        }),
{
    law_cast_to_f32_passes_the_count_and_the_scale(before, after, cpu_image, output);
    let numel = cpu_image.dims().numel(C);
    let upload = choose|upload: wgpu::Buffer| #[trigger]
        after.cast_through(
            before,
            upload,
            output.memory(),
            padded(cpu_image.pixels()),
            cast_request(
                Kernel::CastU8ToF32,
                cast_key(Kernel::CastU8ToF32, 1, C),
                numel,
                SCALE_U8_TO_F32,
                numel,
                upload,
                output.memory(),
            ),
        );
    lemma_class_covers(numel * 4);
    lemma_cast_grid(numel);
    lemma_grid_is_tight(numel, 64);
    law_each_index_has_one_invocation(numel, i, x, y);
    let dispatch = after.handed_over();
    let (wg_x, wg_y) = grid_for(groups_for(numel, 64));
    let request = cast_request(
        Kernel::CastU8ToF32,
        cast_key(Kernel::CastU8ToF32, 1, C),
        numel,
        SCALE_U8_TO_F32,
        numel,
        upload,
        output.memory(),
    );
    assert(dispatch.groups == (request.groups.0, request.groups.1, 1u32));
    let width = wg_x * 64;
    let row = i / width;
    assert(row * wg_x * 64 == row * width && y * wg_x * 64 == y * width) by (nonlinear_arith)
        requires
            width == wg_x * 64,
    ;
    let memory = after.memory()[dispatch.buffers[0]];
    law_lanes_are_the_bytes(memory, i);
    assert(memory[i as int] == cpu_image.pixels()[i as int]);
}

/// What the shader that packs bytes does in the invocation at `(x, y)`: the word of the output that it
/// stores to, and the word that it stores. The rounding is the machine's: `packed` is `pack4x8unorm` of
/// four singles, the first of them in the least significant byte.
pub open spec fn pack_store(
    session: WgpuSession,
    dispatch: Dispatch,
    packed: spec_fn(u32, u32, u32, u32) -> u32,
    x: nat,
    y: nat,
) -> Option<(nat, u32)> {
    let numel = session.parameter(dispatch, 0) as nat;
    let word = x + y * (dispatch.groups.0 as nat) * 64;
    let word_count = (numel + 3) / 4;
    if word >= word_count {
        None
    } else {
        let base = word * 4;
        let v = |j: nat|
            if base + j < numel {
                session.bound_word(dispatch, 0, base + j)
            } else {
                0u32
            };
        Some((word, packed(v(0), v(1), v(2), v(3))))
    }
}

/// The bytes of as many singles and of as many bytes.
proof fn lemma_counts_of_casts(numel: nat)
    ensures
        numel * F32::BYTES == numel * 4,
        numel * u8::BYTES == numel,
{
    (F32 { bits: 0 }).lemma_len();
    0u8.lemma_len();
    assert(numel * F32::BYTES == numel * 4) by (nonlinear_arith)
        requires
            F32::BYTES == 4,
    ;
    assert(numel * u8::BYTES == numel) by (nonlinear_arith)
        requires
            u8::BYTES == 1,
    ;
}

/// A cast to `u8` hands over one dispatch, which reads the image and writes the output. The first field
/// of its parameters is the number of components, so that the words the shader stores are those of the
/// output's bytes.
#[verifier::spinoff_prover]
pub proof fn law_cast_to_u8_passes_the_count<const C: usize>(
    before: WgpuSession,
    after: WgpuSession,
    input: GpuImage<F32, C>,
    output: GpuImage<u8, C>,
)
    requires
        before.holds_image(input),
        before.can_cast_to_u8(input),
        after.cast_to_u8(before, input, output),
    ensures
        after.handed_over_one(before),
        ({
            let dispatch = after.handed_over();
            let size = input.dims();
            let word_count = (after.parameter(dispatch, 0) + 3) / 4;
            &&& dispatch.program == Kernel::CastF32ToU8.program(before.device.features)
            &&& dispatch.buffers[0] == buffer_info(input.memory()).id
            &&& dispatch.buffers[1] == buffer_info(output.memory()).id
            &&& dispatch.buffers[0] != dispatch.buffers[1]
            &&& after.parameter(dispatch, 0) == size.width * size.height * C
            &&& after.parameter(dispatch, 1) == 0x437f_0000
            &&& output.byte_len() <= word_count * 4 < output.byte_len() + 4
            &&& output.dims() == size
            &&& fitting(buffer_info(output.memory()).size, (word_count * 4) as nat)
        }),
{
    (F32 { bits: 0 }).lemma_len();
    0u8.lemma_len();
    let numel = input.dims().numel(C);
    lemma_counts_of_casts(numel);
    law_size_class_is_fitting(aligned(numel));
    let kernel = Kernel::CastF32ToU8;
    let request = cast_request(
        kernel,
        cast_key(kernel, 4, C),
        numel,
        SCALE_F32_TO_U8,
        groups_for(numel, 4),
        input.memory(),
        output.memory(),
    );
    let words = seq![numel as u32, SCALE_F32_TO_U8, 0u32, 0u32];
    lemma_handed_over(before, after, kernel, request.key, request.buffers, words, request.groups);
    assert(request.buffers.contains_key(0) && request.buffers.contains_key(1));
    assert(before.live(buffer_info(input.memory()).id));
}

/// A cast to `u8` gives each word of the output four consecutive components of the image, packed, with
/// zeros behind the last: exactly one invocation of the grid that is handed over stores to it, and no
/// invocation stores beyond the output.
#[verifier::spinoff_prover]
pub proof fn law_cast_to_u8_packs_four_at_a_time<const C: usize>(
    before: WgpuSession,
    after: WgpuSession,
    input: GpuImage<F32, C>,
    output: GpuImage<u8, C>,
    pixels: Seq<F32>,
    packed: spec_fn(u32, u32, u32, u32) -> u32,
    word: nat,
    x: nat,
    y: nat,
)
    requires
        before.holds_image(input),
        before.image_bytes(input) == bytes_of(pixels),
        before.can_cast_to_u8(input),
        after.cast_to_u8(before, input, output),
        word * 4 < output.byte_len(),
    ensures
        ({
            let dispatch = after.handed_over();
            let width = dispatch.groups.0 as nat * 64;
            let component = |k: nat|
                if k < pixels.len() {
                    pixels[k as int].bits
                } else {
                    0u32
                };
            let stored = packed(
                component(word * 4),
                component(word * 4 + 1),
                component(word * 4 + 2),
                component(word * 4 + 3),
            );
            &&& pixels.len() == output.byte_len()
            &&& dispatch.program == Kernel::CastF32ToU8.program(before.device.features)
            &&& dispatch.buffers[1] == buffer_info(output.memory()).id
            &&& dispatch.groups.2 == 1
            &&& word % width < width && word / width < dispatch.groups.1
            &&& tight(dispatch, 64, ((pixels.len() + 3) / 4) as nat)
            &&& pack_store(after, dispatch, packed, word % width, word / width) == Some(
                (word, stored),
            )
            &&& x < width && y < dispatch.groups.1 ==> match pack_store(
                after,
                dispatch,
                packed,
                x,
                y,
            ) {
                None => true,
                Some((target, _)) => target * 4 < output.byte_len() && (target == word ==> x == word
                    % width && y == word / width),
            }
        }),
{
    (F32 { bits: 0 }).lemma_len();
    0u8.lemma_len();
    law_cast_to_u8_passes_the_count(before, after, input, output);
    let numel = input.dims().numel(C);
    lemma_counts_of_casts(numel);
    let invocations = groups_for(numel, 4);
    lemma_cast_grid(invocations);
    lemma_grid_is_tight(invocations, 64);
    law_each_index_has_one_invocation(invocations, word, x, y);
    let dispatch = after.handed_over();
    let (wg_x, wg_y) = grid_for(groups_for(invocations, 64));
    let width = wg_x * 64;
    let row = word / width;
    assert(row * wg_x * 64 == row * width && y * wg_x * 64 == y * width) by (nonlinear_arith)
        requires
            width == wg_x * 64,
    ;
    assert(dispatch.groups == (wg_x as u32, wg_y as u32, 1u32));
    let memory = before.memory()[buffer_info(input.memory()).id];
    assert(before.live(buffer_info(input.memory()).id));
    assert(after.memory()[dispatch.buffers[0]] == memory);
    lemma_singles_read(memory, pixels, numel, word * 4);
    if word * 4 + 1 < numel {
        lemma_singles_read(memory, pixels, numel, word * 4 + 1);
    }
    if word * 4 + 2 < numel {
        lemma_singles_read(memory, pixels, numel, word * 4 + 2);
    }
    if word * 4 + 3 < numel {
        lemma_singles_read(memory, pixels, numel, word * 4 + 3);
    }
}

/// A cast back is the inverse of a cast: where the components are what casting bytes gives, and the machine
/// rounds such a component to the byte that it came from, each word that is stored has the bytes again.
pub proof fn law_cast_back_restores_the_bytes<const C: usize>(
    before: WgpuSession,
    after: WgpuSession,
    input: GpuImage<F32, C>,
    output: GpuImage<u8, C>,
    bytes: Seq<u8>,
    components: Seq<F32>,
    product: spec_fn(u8, u32) -> u32,
    rounded: spec_fn(u32) -> u8,
    packed: spec_fn(u32, u32, u32, u32) -> u32,
    word: nat,
    j: nat,
)
    requires
        before.holds_image(input),
        before.image_bytes(input) == bytes_of(components),
        before.can_cast_to_u8(input),
        after.cast_to_u8(before, input, output),
        components.len() == bytes.len(),
        forall|i: int|
            0 <= i < bytes.len() ==> (#[trigger] components[i]).bits == product(
                bytes[i],
                0x3b80_8081,
            ),
        forall|b: u8| rounded(#[trigger] product(b, 0x3b80_8081)) == b,
        forall|a: u32, b: u32, c: u32, d: u32|
            {
                let packed_word = #[trigger] packed(a, b, c, d);
                &&& lane(packed_word, 0) == rounded(a)
                &&& lane(packed_word, 1) == rounded(b)
                &&& lane(packed_word, 2) == rounded(c)
                &&& lane(packed_word, 3) == rounded(d)
            },
        j < 4,
        word * 4 + j < bytes.len(),
    ensures
        ({
            let dispatch = after.handed_over();
            let width = dispatch.groups.0 as nat * 64;
            pack_store(after, dispatch, packed, word % width, word / width) matches Some(
                (target, stored),
            ) && target == word && lane(stored, j) == bytes[(word * 4 + j) as int]
        }),
{
    0u8.lemma_len();
    (F32 { bits: 0 }).lemma_len();
    let numel = input.dims().numel(C);
    lemma_counts_of_casts(numel);
    assert(bytes_of(components).len() == components.len() * 4);
    assert(before.image_bytes(input).len() == numel * 4);
    law_cast_to_u8_packs_four_at_a_time(
        before,
        after,
        input,
        output,
        components,
        packed,
        word,
        0,
        0,
    );
    assert(components[(word * 4 + j) as int].bits == product(
        bytes[(word * 4 + j) as int],
        0x3b80_8081,
    ));
}

/// The text of the shader that unpacks bytes, paragraph by paragraph: its parameters and their order, its
/// invocation, and the statements that [`unpack_store`] gives the meaning of.
pub proof fn law_unpacking_shader_text()
    ensures
        Kernel::CastU8ToF32.body() == "\nstruct Params {\n    numel: u32,\n    scale: f32,\n    _pad: vec2<u32>,\n}\nvar<immediate> p: Params;\n\n"@
            + "@compute @workgroup_size(64)\nfn main(\n    @builtin(global_invocation_id) gid: vec3<u32>,\n    @builtin(num_workgroups) groups: vec3<u32>,\n) {\n    let i = gid.x + gid.y * groups.x * 64u;\n    if i >= p.numel { return; }\n\n"@
            + "    let word  = i / 4u;\n    let shift = (i % 4u) * 8u;\n    let byte  = (input_u8[word] >> shift) & 0xFFu;\n\n"@
            + "    output_f32[i] = f32(byte) * p.scale;\n}\n"@,
{
    reveal_strlit(
        r#"
struct Params {
    numel: u32,
    scale: f32,
    _pad: vec2<u32>,
}
var<immediate> p: Params;

@compute @workgroup_size(64)
fn main(
    @builtin(global_invocation_id) gid: vec3<u32>,
    @builtin(num_workgroups) groups: vec3<u32>,
) {
    let i = gid.x + gid.y * groups.x * 64u;
    if i >= p.numel { return; }

    let word  = i / 4u;
    let shift = (i % 4u) * 8u;
    let byte  = (input_u8[word] >> shift) & 0xFFu;

    output_f32[i] = f32(byte) * p.scale;
}
"#,
    );
    reveal_strlit("\nstruct Params {\n    numel: u32,\n    scale: f32,\n    _pad: vec2<u32>,\n}\nvar<immediate> p: Params;\n\n");
    reveal_strlit("@compute @workgroup_size(64)\nfn main(\n    @builtin(global_invocation_id) gid: vec3<u32>,\n    @builtin(num_workgroups) groups: vec3<u32>,\n) {\n    let i = gid.x + gid.y * groups.x * 64u;\n    if i >= p.numel { return; }\n\n");
    reveal_strlit("    let word  = i / 4u;\n    let shift = (i % 4u) * 8u;\n    let byte  = (input_u8[word] >> shift) & 0xFFu;\n\n");
    reveal_strlit("    output_f32[i] = f32(byte) * p.scale;\n}\n");
}

/// The text of the shader that packs bytes, paragraph by paragraph: its parameters and their order, its
/// invocation, and the statements that [`pack_store`] gives the meaning of.
pub proof fn law_packing_shader_text()
    ensures
        Kernel::CastF32ToU8.body() == "\nstruct Params {\n    numel: u32,   // total number of f32 elements (= W * H * C)\n    scale: f32,   // unused for this direction; kept for layout compatibility\n    _pad: vec2<u32>,\n}\nvar<immediate> p: Params;\n\n"@
            + "@compute @workgroup_size(64)\nfn main(\n    @builtin(global_invocation_id) gid: vec3<u32>,\n    @builtin(num_workgroups) groups: vec3<u32>,\n) {\n    // Each thread packs 4 consecutive f32s into one u32 output word.\n    let word = gid.x + gid.y * groups.x * 64u;\n\n"@
            + "    // Total number of u32 words needed to cover all elements.\n    let word_count = (p.numel + 3u) / 4u;\n    if word >= word_count { return; }\n\n"@
            + "    let base = word * 4u;\n\n"@
            + "    // Read 4 f32 values; pad with 0.0 if we are in the tail word.\n    var v: vec4<f32>;\n    v.x = select(0.0, input_f32[base + 0u], base + 0u < p.numel);\n    v.y = select(0.0, input_f32[base + 1u], base + 1u < p.numel);\n    v.z = select(0.0, input_f32[base + 2u], base + 2u < p.numel);\n    v.w = select(0.0, input_f32[base + 3u], base + 3u < p.numel);\n\n"@
            + "    // pack4x8unorm: saturates to [0, 1], multiplies by 255, rounds, packs\n    // four bytes into a u32 (little-endian: byte 0 = least-significant byte).\n    output_u8[word] = pack4x8unorm(v);\n}\n"@,
{
    reveal_strlit(
        r#"
struct Params {
    numel: u32,   // total number of f32 elements (= W * H * C)
    scale: f32,   // unused for this direction; kept for layout compatibility
    _pad: vec2<u32>,
}
var<immediate> p: Params;

@compute @workgroup_size(64)
fn main(
    @builtin(global_invocation_id) gid: vec3<u32>,
    @builtin(num_workgroups) groups: vec3<u32>,
) {
    // Each thread packs 4 consecutive f32s into one u32 output word.
    let word = gid.x + gid.y * groups.x * 64u;

    // Total number of u32 words needed to cover all elements.
    let word_count = (p.numel + 3u) / 4u;
    if word >= word_count { return; }

    let base = word * 4u;

    // Read 4 f32 values; pad with 0.0 if we are in the tail word.
    var v: vec4<f32>;
    v.x = select(0.0, input_f32[base + 0u], base + 0u < p.numel);
    v.y = select(0.0, input_f32[base + 1u], base + 1u < p.numel);
    v.z = select(0.0, input_f32[base + 2u], base + 2u < p.numel);
    v.w = select(0.0, input_f32[base + 3u], base + 3u < p.numel);

    // pack4x8unorm: saturates to [0, 1], multiplies by 255, rounds, packs
    // four bytes into a u32 (little-endian: byte 0 = least-significant byte).
    output_u8[word] = pack4x8unorm(v);
}
"#,
    );
    reveal_strlit("\nstruct Params {\n    numel: u32,   // total number of f32 elements (= W * H * C)\n    scale: f32,   // unused for this direction; kept for layout compatibility\n    _pad: vec2<u32>,\n}\nvar<immediate> p: Params;\n\n");
    reveal_strlit("@compute @workgroup_size(64)\nfn main(\n    @builtin(global_invocation_id) gid: vec3<u32>,\n    @builtin(num_workgroups) groups: vec3<u32>,\n) {\n    // Each thread packs 4 consecutive f32s into one u32 output word.\n    let word = gid.x + gid.y * groups.x * 64u;\n\n");
    reveal_strlit("    // Total number of u32 words needed to cover all elements.\n    let word_count = (p.numel + 3u) / 4u;\n    if word >= word_count { return; }\n\n");
    reveal_strlit("    let base = word * 4u;\n\n");
    reveal_strlit("    // Read 4 f32 values; pad with 0.0 if we are in the tail word.\n    var v: vec4<f32>;\n    v.x = select(0.0, input_f32[base + 0u], base + 0u < p.numel);\n    v.y = select(0.0, input_f32[base + 1u], base + 1u < p.numel);\n    v.z = select(0.0, input_f32[base + 2u], base + 2u < p.numel);\n    v.w = select(0.0, input_f32[base + 3u], base + 3u < p.numel);\n\n");
    reveal_strlit("    // pack4x8unorm: saturates to [0, 1], multiplies by 255, rounds, packs\n    // four bytes into a u32 (little-endian: byte 0 = least-significant byte).\n    output_u8[word] = pack4x8unorm(v);\n}\n");
}

/// The pipeline of a cast to `f32` is kept by the name of its shader and the number of channels: the first
/// cast with them compiles it, any other finds it, and no other pipeline is touched.
pub proof fn law_cast_to_f32_is_compiled_once_per_channel_count<const C: usize>(
    before: WgpuSession,
    after: WgpuSession,
    cpu_image: Image<u8, C>,
    output: GpuImage<F32, C>,
)
    requires
        before.wf(),
        after.cast_to_f32(before, cpu_image, output),
    ensures
        ({
            let program = Kernel::CastU8ToF32.program(before.device.features);
            let kept = Key {
                shader_name: "CastU8ToF32"@,
                pixel_bytes: 1,
                channels: C as u8,
                wg_x: 64,
                wg_y: 1,
                variant: 0,
            };
            &&& after.device.cache().contains_key(kept)
            &&& after.device.cache()[kept].program == program
            &&& forall|key: Key|
                key != kept ==> (#[trigger] after.device.cache().contains_key(key)
                    <==> before.device.cache().contains_key(key))
            &&& after.gpu().compiled() == if before.device.cache().contains_key(kept) {
                before.gpu().compiled()
            } else {
                before.gpu().compiled().push(program)
            }
        }),
{
    let numel = cpu_image.dims().numel(C);
    let kernel = Kernel::CastU8ToF32;
    let upload = choose|upload: wgpu::Buffer| #[trigger]
        after.cast_through(
            before,
            upload,
            output.memory(),
            padded(cpu_image.pixels()),
            cast_request(
                kernel,
                cast_key(kernel, 1, C),
                numel,
                SCALE_U8_TO_F32,
                numel,
                upload,
                output.memory(),
            ),
        );
    let request = cast_request(
        kernel,
        cast_key(kernel, 1, C),
        numel,
        SCALE_U8_TO_F32,
        numel,
        upload,
        output.memory(),
    );
    lemma_kept_under(before, after, kernel, request);
}

/// The pipeline of a cast to `u8` is kept by the name of its shader and the number of channels: the first
/// cast with them compiles it, any other finds it, and no other pipeline is touched.
pub proof fn law_cast_to_u8_is_compiled_once_per_channel_count<const C: usize>(
    before: WgpuSession,
    after: WgpuSession,
    input: GpuImage<F32, C>,
    output: GpuImage<u8, C>,
)
    requires
        before.wf(),
        after.cast_to_u8(before, input, output),
    ensures
        ({
            let program = Kernel::CastF32ToU8.program(before.device.features);
            let kept = Key {
                shader_name: "CastF32ToU8"@,
                pixel_bytes: 4,
                channels: C as u8,
                wg_x: 64,
                wg_y: 1,
                variant: 0,
            };
            &&& after.device.cache().contains_key(kept)
            &&& after.device.cache()[kept].program == program
            &&& forall|key: Key|
                key != kept ==> (#[trigger] after.device.cache().contains_key(key)
                    <==> before.device.cache().contains_key(key))
            &&& after.gpu().compiled() == if before.device.cache().contains_key(kept) {
                before.gpu().compiled()
            } else {
                before.gpu().compiled().push(program)
            }
        }),
{
    let numel = input.dims().numel(C);
    let kernel = Kernel::CastF32ToU8;
    let request = cast_request(
        kernel,
        cast_key(kernel, 4, C),
        numel,
        SCALE_F32_TO_U8,
        groups_for(numel, 4),
        input.memory(),
        output.memory(),
    );
    lemma_kept_under(before, after, kernel, request);
}

/// A cast to `f32` is possible on any device that runs the shader and takes a full grid, where a power of
/// two that is large enough for the output is within its limits.
pub proof fn law_cast_to_f32_is_possible_within_the_limits(
    session: WgpuSession,
    size: ImageSize,
    channels: usize,
    class: nat,
)
    requires
        Kernel::CastU8ToF32.runs_on(session.device.limits, session.device.features),
        0 < size.width * size.height * channels,
        size.width * size.height <= usize::MAX,
        size.width * channels <= usize::MAX,
        size.width * size.height * channels * 4 <= usize::MAX,
        size.width * size.height * channels * 4 <= class,
        is_power_of_two(class),
        64 <= class <= session.device.limits.max_storage_buffer_binding_size,
        class <= session.device.limits.max_buffer_size,
        session.device.limits.max_compute_workgroups_per_dimension >= 65535,
    ensures
        session.can_cast_to_f32(size, channels),
{
    (F32 { bits: 0 }).lemma_len();
    let numel = size.numel(channels);
    law_allocations_reach_the_limit(session, numel * 4, class);
    law_size_class_is_the_smallest(numel * 4, class);
    lemma_cast_grid(numel);
}

/// A cast to `u8` is possible on any device that runs the shader, binds the input and takes a full grid,
/// where a power of two that is large enough for the output is within its limits.
pub proof fn law_cast_to_u8_is_possible_within_the_limits<const C: usize>(
    session: WgpuSession,
    input: GpuImage<F32, C>,
    class: nat,
)
    requires
        session.holds_image(input),
        Kernel::CastF32ToU8.runs_on(session.device.limits, session.device.features),
        buffer_info(input.memory()).size <= session.device.limits.max_storage_buffer_binding_size,
        input.dims().width * input.dims().height * C + 3 <= class,
        is_power_of_two(class),
        64 <= class <= session.device.limits.max_storage_buffer_binding_size,
        class <= session.device.limits.max_buffer_size,
        session.device.limits.max_compute_workgroups_per_dimension >= 65535,
    ensures
        session.can_cast_to_u8(input),
{
    let numel = input.dims().numel(C);
    lemma_counts_of_casts(numel);
    lemma_groups_for(numel, 4);
    law_allocations_reach_the_limit(session, aligned(numel), class);
    law_size_class_is_the_smallest(aligned(numel), class);
    lemma_cast_grid(groups_for(numel, 4));
}

} // verus!
