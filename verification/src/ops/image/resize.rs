//! Resizing.
use vstd::math::min;
use vstd::prelude::*;

use crate::bytes::{bytes_of, lemma_singles_read, word_at, F32, Plain};
use crate::error::WgpuError;
use crate::gpu::{buffer_info, size_of_buffer, Dispatch};
use crate::gpu_res::GpuImage;
use crate::host::ImageSize;
use crate::kernel::Kernel;
use crate::ops::{
    div_ceil, groups_for, kernel_request, law_rows_reach_each_index_once,
    law_tiles_reach_each_index, lemma_groups_for, lemma_handed_over, lemma_kept_under,
    run_1in_1out, Immediates, Request,
};
use crate::pool::{
    class_of, fitting, is_power_of_two, law_size_class_is_fitting, law_size_class_is_the_smallest,
    lemma_class_covers, size_class,
};
use crate::session::{law_allocations_reach_the_limit, lemma_class_bounded, WgpuSession};
use crate::shader::Key;
use crate::transfer::{acquire_output, byte_countable, checked_len, src_buffer, wrap_gpu_buffer};

verus! {

/// Nearest-neighbour resizing.
pub const RESIZE_WGSL: &'static str = r#"
struct Immediates {
    in_width: u32,
    in_height: u32,
    out_width: u32,
    out_height: u32,
    channels: u32,
    _pad: u32,
}
var<immediate> params: Immediates;

@compute @workgroup_size(16, 16)
fn main(@builtin(global_invocation_id) global_id: vec3<u32>) {
    let x = global_id.x;
    let y = global_id.y;

    if (x >= params.out_width || y >= params.out_height) { return; }

    let scale_x = f32(params.in_width)  / f32(params.out_width);
    let scale_y = f32(params.in_height) / f32(params.out_height);

    let src_x = min(u32(f32(x) * scale_x), params.in_width  - 1u);
    let src_y = min(u32(f32(y) * scale_y), params.in_height - 1u);

    let src_base = (src_y * params.in_width  + src_x) * params.channels;
    let dst_base = (y    * params.out_width  + x)     * params.channels;

    for (var c = 0u; c < params.channels; c++) {
        output_buf[dst_base + c] = input_buf[src_base + c];
    }
}
"#;

/// Bilinear resizing.
pub const RESIZE_BILINEAR_WGSL: &'static str = r#"
struct PushConstants {
    in_width: u32,
    in_height: u32,
    out_width: u32,
    out_height: u32,
    channels: u32,
    _pad: u32,
}
var<immediate> params: PushConstants;

@compute @workgroup_size(16, 16)
fn main(@builtin(global_invocation_id) global_id: vec3<u32>) {
    let x = global_id.x;
    let y = global_id.y;

    if (x >= params.out_width || y >= params.out_height) { return; }

    let scale_x = f32(params.in_width)  / f32(params.out_width);
    let scale_y = f32(params.in_height) / f32(params.out_height);

    let src_x = (f32(x) + 0.5) * scale_x - 0.5;
    let src_y = (f32(y) + 0.5) * scale_y - 0.5;

    let x1 = u32(max(0.0, floor(src_x)));
    let y1 = u32(max(0.0, floor(src_y)));
    let x2 = min(x1 + 1u, params.in_width  - 1u);
    let y2 = min(y1 + 1u, params.in_height - 1u);

    let wx = max(0.0, src_x - f32(x1));
    let wy = max(0.0, src_y - f32(y1));

    let dst_base = (y * params.out_width + x) * params.channels;

    for (var c = 0u; c < params.channels; c++) {
        let p11 = input_buf[(y1 * params.in_width + x1) * params.channels + c];
        let p12 = input_buf[(y1 * params.in_width + x2) * params.channels + c];
        let p21 = input_buf[(y2 * params.in_width + x1) * params.channels + c];
        let p22 = input_buf[(y2 * params.in_width + x2) * params.channels + c];

        output_buf[dst_base + c] = mix(mix(p11, p12, wx), mix(p21, p22, wx), wy);
    }
}
"#;

/// Interoperability parameters for resize shaders.
#[derive(Copy, Clone, Debug)]
pub struct ResizeImmediates {
    pub in_width: u32,
    pub in_height: u32,
    pub out_width: u32,
    pub out_height: u32,
    pub channels: u32,
    pub _pad: u32,
}

impl Immediates for ResizeImmediates {
    open spec fn words(&self) -> Seq<u32> {
        seq![
            self.in_width,
            self.in_height,
            self.out_width,
            self.out_height,
            self.channels,
            self._pad,
        ]
    }

    fn to_words(&self) -> (words: Vec<u32>) {
        let words = vec![
            self.in_width,
            self.in_height,
            self.out_width,
            self.out_height,
            self.channels,
            self._pad,
        ];
        assert(words@ =~= self.words());
        words
    }
}

/// What a resize hands over: the shader reads the input's buffer and writes the output's, with one
/// invocation per output pixel in tiles of 16 by 16.
pub open spec fn resize_request(
    kernel: Kernel,
    channels: usize,
    input: ImageSize,
    in_buffer: wgpu::Buffer,
    output: ImageSize,
    out_buffer: wgpu::Buffer,
) -> Request {
    kernel_request(
        kernel,
        resize_key(kernel, channels),
        map![0u32 => buffer_info(in_buffer), 1u32 => buffer_info(out_buffer)],
        seq![
            input.width as u32,
            input.height as u32,
            output.width as u32,
            output.height as u32,
            channels as u32,
            0u32,
        ],
        (
            groups_for((output.width as u32) as nat, 16) as u32,
            groups_for((output.height as u32) as nat, 16) as u32,
        ),
    )
}

/// Each output pixel has an invocation, in one of the tiles, and each component of the output is
/// that of exactly one channel of one pixel: the shader's index `(y * width + x) * channels + c`
/// reaches it once.
pub proof fn law_each_component_is_written_once(
    size: ImageSize,
    channels: usize,
    index: nat,
    x: nat,
    y: nat,
    c: nat,
)
    requires
        index < size.numel(channels),
    ensures
        ({
            let width = size.width as nat;
            let pixel = index / (channels as nat);
            let (px, py, pc) = (pixel % width, pixel / width, index % (channels as nat));
            &&& px < width && py < size.height && pc < channels
            &&& px / 16 < groups_for(width, 16)
            &&& py / 16 < groups_for(size.height as nat, 16)
            &&& (py * width + px) * channels + pc == index
            &&& x < width && c < channels && (y * width + x) * channels + c == index ==> x == px && y
                == py && c == pc
        }),
{
    let (w, h, n) = (size.width as nat, size.height as nat, channels as nat);
    assert(n * (w * h) == w * h * n) by (nonlinear_arith);
    assert(n > 0 && w > 0) by (nonlinear_arith)
        requires
            index < w * h * n,
            index >= 0,
            w >= 0,
            h >= 0,
            n >= 0,
    ;
    law_rows_reach_each_index_once(index, n, w * h, c, y * w + x);
    let pixel = index / n;
    law_rows_reach_each_index_once(pixel, w, h, x, y);
    law_tiles_reach_each_index(pixel % w, w, 16);
    law_tiles_reach_each_index(pixel / w, h, 16);
}

/// The key that the pipeline of a resize is kept under.
pub open spec fn resize_key(kernel: Kernel, channels: usize) -> Key {
    Key {
        shader_name: kernel.kind().name,
        pixel_bytes: 4,
        channels: channels as u8,
        wg_x: 16,
        wg_y: 16,
        variant: 0,
    }
}

impl WgpuSession {
    /// An image of the session can be resized to `new_size`: the device runs the shader, binds
    /// buffers of both sizes, and takes a grid over the output; and the output can be allocated.
    pub open spec fn can_resize<const C: usize>(
        self,
        kernel: Kernel,
        input: GpuImage<F32, C>,
        new_size: ImageSize,
    ) -> bool {
        let limits = self.device.limits;
        &&& kernel.runs_on(limits, self.device.features)
        &&& buffer_info(input.memory()).size <= limits.max_storage_buffer_binding_size
        &&& byte_countable::<F32>(new_size, C)
        &&& self.can_allocate(new_size.numel(C) * 4)
        &&& size_class(new_size.numel(C) * 4) <= limits.max_storage_buffer_binding_size
        &&& groups_for((new_size.width as u32) as nat, 16)
            <= limits.max_compute_workgroups_per_dimension
        &&& groups_for((new_size.height as u32) as nat, 16)
            <= limits.max_compute_workgroups_per_dimension
        &&& 1 <= limits.max_compute_workgroups_per_dimension
    }

    /// Whether an image of the session can be resized to `new_size`.
    #[verifier::spinoff_prover]
    pub fn allows_resize<const C: usize>(
        &self,
        kernel: Kernel,
        input: &GpuImage<F32, C>,
        new_size: ImageSize,
    ) -> (allowed: bool)
        ensures
            allowed == self.can_resize(kernel, *input, new_size),
    {
        proof {
            (F32 { bits: 0 }).lemma_len();
        }
        let limits = self.device.limits;
        let n: u64 = match checked_len::<F32>(new_size, C) {
            None => return false,
            Some(n) => n as u64,
        };
        kernel.is_supported(limits, self.device.features) && size_of_buffer(src_buffer(input))
            <= limits.max_storage_buffer_binding_size as u64 && self.allows_buffer(n) && class_of(n)
            <= limits.max_storage_buffer_binding_size as u64 && div_ceil(new_size.width as u32, 16)
            <= limits.max_compute_workgroups_per_dimension && div_ceil(new_size.height as u32, 16)
            <= limits.max_compute_workgroups_per_dimension && 1
            <= limits.max_compute_workgroups_per_dimension
    }

    /// This is `before` with a resize handed over.
    pub open spec fn resized<const C: usize>(
        self,
        before: WgpuSession,
        kernel: Kernel,
        input: GpuImage<F32, C>,
        new_size: ImageSize,
        output: GpuImage<F32, C>,
    ) -> bool {
        let request = resize_request(
            kernel,
            C,
            input.dims(),
            input.memory(),
            new_size,
            output.memory(),
        );
        &&& self.operated(before, kernel, request, output.memory())
        &&& output.dims() == new_size
        &&& self.holds_image(output)
        &&& buffer_info(output.memory()).size == size_class(output.byte_len())
    }

    /// This is `before` with a nearest-neighbour resize handed over.
    pub open spec fn resized_nearest<const C: usize>(
        self,
        before: WgpuSession,
        input: GpuImage<F32, C>,
        new_size: ImageSize,
        output: GpuImage<F32, C>,
    ) -> bool {
        self.resized(before, Kernel::ResizeNearest, input, new_size, output)
    }

    /// This is `before` with a bilinear resize handed over.
    pub open spec fn resized_bilinear<const C: usize>(
        self,
        before: WgpuSession,
        input: GpuImage<F32, C>,
        new_size: ImageSize,
        output: GpuImage<F32, C>,
    ) -> bool {
        self.resized(before, Kernel::ResizeBilinear, input, new_size, output)
    }
}

/// Resizes a GPU image with one of the resize shaders.
#[verifier::spinoff_prover]
fn resize<const C: usize>(
    session: &mut WgpuSession,
    kernel: Kernel,
    source: &str,
    input: &GpuImage<F32, C>,
    new_size: ImageSize,
) -> (outcome: Result<GpuImage<F32, C>, WgpuError>)
    requires
        old(session).wf(),
        old(session).holds_image(*input),
        old(session).can_resize(kernel, *input, new_size),
        kernel == Kernel::ResizeNearest || kernel == Kernel::ResizeBilinear,
        source@ == kernel.body(),
    ensures
        outcome matches Ok(output) && final(session).resized(
            *old(session),
            kernel,
            *input,
            new_size,
            output,
        ),
{
    proof {
        (F32 { bits: 0 }).lemma_len();
    }
    let numel: usize = new_size.count(C);
    let byte_size: u64 = (numel * 4) as u64;
    let out_alloc = acquire_output(session, byte_size);
    let ghost acquired = *session;
    proof {
        let out_size = buffer_info(out_alloc.memory()).size;
        lemma_class_bounded(out_size);
        lemma_class_bounded(buffer_info(input.memory()).size);
        lemma_class_covers(byte_size as nat);
        acquired.lemma_carried(*old(session), input.memory());
        assert(old(session).live(buffer_info(input.memory()).id));
    }
    let in_size: ImageSize = input.size();
    let immediates = ResizeImmediates {
        in_width: in_size.width as u32,
        in_height: in_size.height as u32,
        out_width: new_size.width as u32,
        out_height: new_size.height as u32,
        channels: C as u32,
        _pad: 0,
    };
    run_1in_1out(
        session,
        kernel,
        source,
        src_buffer(input),
        out_alloc.gpu_buffer(),
        &immediates,
        (new_size.width as u32, new_size.height as u32),
        (16, 16),
        4,
        C as u8,
    );
    proof {
        let request = resize_request(
            kernel,
            C,
            input.dims(),
            input.memory(),
            new_size,
            out_alloc.memory(),
        );
        session.lemma_operated(acquired, *old(session), kernel, request, out_alloc.memory());
    }
    wrap_gpu_buffer(new_size, out_alloc)
}

/// Resizes a GPU image using nearest-neighbor interpolation.
pub fn resize_nearest_f32<const C: usize>(
    session: &mut WgpuSession,
    input: &GpuImage<F32, C>,
    new_size: ImageSize,
) -> (outcome: Result<GpuImage<F32, C>, WgpuError>)
    requires
        old(session).wf(),
        old(session).holds_image(*input),
        old(session).can_resize(Kernel::ResizeNearest, *input, new_size),
    ensures
        outcome matches Ok(output) && final(session).resized_nearest(
            *old(session),
            *input,
            new_size,
            output,
        ),
{
    resize(session, Kernel::ResizeNearest, RESIZE_WGSL, input, new_size)
}

/// Resizes a GPU image using bilinear interpolation.
pub fn resize_bilinear_f32<const C: usize>(
    session: &mut WgpuSession,
    input: &GpuImage<F32, C>,
    new_size: ImageSize,
) -> (outcome: Result<GpuImage<F32, C>, WgpuError>)
    requires
        old(session).wf(),
        old(session).holds_image(*input),
        old(session).can_resize(Kernel::ResizeBilinear, *input, new_size),
    ensures
        outcome matches Ok(output) && final(session).resized_bilinear(
            *old(session),
            *input,
            new_size,
            output,
        ),
{
    resize(session, Kernel::ResizeBilinear, RESIZE_BILINEAR_WGSL, input, new_size)
}

// ── What a resize does ───────────────────────────────────────────────────────

/// Where there are components, and they can be bound, no extent is too large for a word.
proof fn lemma_extents_fit(size: ImageSize, channels: usize)
    requires
        0 < size.numel(channels),
        size.numel(channels) * 4 <= u32::MAX,
    ensures
        0 < size.width <= u32::MAX,
        0 < size.height <= u32::MAX,
        0 < channels <= u32::MAX,
{
    let (w, h, n) = (size.width as int, size.height as int, channels as int);
    assert(0 < w <= w * h * n && 0 < h <= w * h * n && 0 < n <= w * h * n) by (nonlinear_arith)
        requires
            0 < w * h * n,
            0 <= w,
            0 <= h,
            0 <= n,
    ;
}

/// A component of an image stands for one pixel and channel, and is within the image.
proof fn lemma_component_within(size: ImageSize, channels: usize, x: nat, y: nat, c: nat)
    requires
        x < size.width,
        y < size.height,
        c < channels,
    ensures
        (y * size.width + x) * channels + c < size.numel(channels),
{
    let (w, h, n) = (size.width as int, size.height as int, channels as int);
    assert((y * w + x) * n + c < w * h * n) by (nonlinear_arith)
        requires
            0 <= x < w,
            0 <= y < h,
            0 <= c < n,
    ;
}

/// A resize hands over one dispatch of its shader. The shader reads the input and writes the output,
/// and the fields of its parameters are the width and the height of the input, those of the output,
/// and the number of channels, in this order.
pub proof fn law_resize_passes_both_sizes<const C: usize>(
    before: WgpuSession,
    after: WgpuSession,
    kernel: Kernel,
    input: GpuImage<F32, C>,
    new_size: ImageSize,
    output: GpuImage<F32, C>,
)
    requires
        kernel == Kernel::ResizeNearest || kernel == Kernel::ResizeBilinear,
        before.holds_image(input),
        before.can_resize(kernel, input, new_size),
        after.resized(before, kernel, input, new_size, output),
    ensures
        after.handed_over_one(before),
        output.dims() == new_size,
        fitting(buffer_info(output.memory()).size, new_size.numel(C) * 4),
        ({
            let dispatch = after.handed_over();
            &&& dispatch.program == kernel.program(before.device.features)
            &&& dispatch.buffers[0] == buffer_info(input.memory()).id
            &&& dispatch.buffers[1] == buffer_info(output.memory()).id
            &&& dispatch.buffers[0] != dispatch.buffers[1]
            &&& after.parameter(dispatch, 0) == input.dims().width as u32
            &&& after.parameter(dispatch, 1) == input.dims().height as u32
            &&& after.parameter(dispatch, 2) == new_size.width as u32
            &&& after.parameter(dispatch, 3) == new_size.height as u32
            &&& after.parameter(dispatch, 4) == C as u32
            &&& input.dims().numel(C) > 0 ==> after.parameter(dispatch, 0) == input.dims().width
                && after.parameter(dispatch, 1) == input.dims().height && after.parameter(dispatch, 4)
                == C
            &&& new_size.numel(C) > 0 ==> after.parameter(dispatch, 2) == new_size.width
                && after.parameter(dispatch, 3) == new_size.height && after.parameter(dispatch, 4) == C
        }),
{
    (F32 { bits: 0 }).lemma_len();
    let request = resize_request(
        kernel,
        C,
        input.dims(),
        input.memory(),
        new_size,
        output.memory(),
    );
    let words = seq![
        input.dims().width as u32,
        input.dims().height as u32,
        new_size.width as u32,
        new_size.height as u32,
        C as u32,
        0u32,
    ];
    lemma_handed_over(before, after, kernel, request.key, request.buffers, words, request.groups);
    assert(request.buffers.contains_key(0) && request.buffers.contains_key(1));
    assert(before.live(buffer_info(input.memory()).id));
    law_size_class_is_fitting(new_size.numel(C) * 4);
    if input.dims().numel(C) > 0 {
        lemma_extents_fit(input.dims(), C);
    }
    if new_size.numel(C) > 0 {
        lemma_class_covers(new_size.numel(C) * 4);
        lemma_extents_fit(new_size, C);
    }
}

/// A resize writes each component of the output once: with the extents and the number of channels
/// that are handed over, the shader's index `(y * out_width + x) * channels + c` is within the output,
/// and it is a given component for exactly one pixel and channel, whose invocation the grid that is
/// handed over has.
pub proof fn law_resize_writes_each_component_once<const C: usize>(
    before: WgpuSession,
    after: WgpuSession,
    kernel: Kernel,
    input: GpuImage<F32, C>,
    new_size: ImageSize,
    output: GpuImage<F32, C>,
    index: nat,
    x: nat,
    y: nat,
    c: nat,
)
    requires
        kernel == Kernel::ResizeNearest || kernel == Kernel::ResizeBilinear,
        before.holds_image(input),
        before.can_resize(kernel, input, new_size),
        after.resized(before, kernel, input, new_size, output),
        index < output.dims().numel(C),
    ensures
        ({
            let dispatch = after.handed_over();
            let width = after.parameter(dispatch, 2) as nat;
            let height = after.parameter(dispatch, 3) as nat;
            let channels = after.parameter(dispatch, 4) as nat;
            let pixel = index / channels;
            let (px, py, pc) = (pixel % width, pixel / width, index % channels);
            &&& px < width && py < height && pc < channels
            &&& px < dispatch.groups.0 * 16 < width + 16
            &&& py < dispatch.groups.1 * 16 < height + 16
            &&& dispatch.groups.2 == 1
            &&& (py * width + px) * channels + pc == index
            &&& x < width && y < height && c < channels ==> (y * width + x) * channels + c
                < output.dims().numel(C)
            &&& x < width && y < height && c < channels && (y * width + x) * channels + c == index
                ==> x == px && y == py && c == pc
        }),
{
    law_resize_passes_both_sizes(before, after, kernel, input, new_size, output);
    law_each_component_is_written_once(new_size, C, index, x, y, c);
    let dispatch = after.handed_over();
    let (w, h) = (new_size.width as nat, new_size.height as nat);
    let pixel = index / (C as nat);
    lemma_class_covers(new_size.numel(C) * 4);
    lemma_extents_fit(new_size, C);
    lemma_groups_for(w, 16);
    lemma_groups_for(h, 16);
    law_tiles_reach_each_index(pixel % w, w, 16);
    law_tiles_reach_each_index(pixel / w, h, 16);
    if x < w && y < h && c < C {
        lemma_component_within(new_size, C, x, y, c);
    }
    lemma_resize_grid(before, after, kernel, input, new_size, output);
}

/// The grid of a resize.
proof fn lemma_resize_grid<const C: usize>(
    before: WgpuSession,
    after: WgpuSession,
    kernel: Kernel,
    input: GpuImage<F32, C>,
    new_size: ImageSize,
    output: GpuImage<F32, C>,
)
    requires
        after.resized(before, kernel, input, new_size, output),
        new_size.width <= u32::MAX,
        new_size.height <= u32::MAX,
    ensures
        after.handed_over().groups == (
            groups_for(new_size.width as nat, 16) as u32,
            groups_for(new_size.height as nat, 16) as u32,
            1u32,
        ),
        groups_for(new_size.width as nat, 16) <= u32::MAX,
        groups_for(new_size.height as nat, 16) <= u32::MAX,
{
    lemma_groups_for(new_size.width as nat, 16);
    lemma_groups_for(new_size.height as nat, 16);
}

/// What the nearest-neighbour shader does in the invocation at `(x, y)` for channel `c`: the component
/// of the output that it stores to, and the bits that it stores. The rounding of the machine's
/// arithmetic is left open: `scaled` is the coordinate that `u32(f32(x) * (f32(in) / f32(out)))` is.
pub open spec fn nearest_store(
    session: WgpuSession,
    dispatch: Dispatch,
    scaled: spec_fn(nat, nat, nat) -> nat,
    x: nat,
    y: nat,
    c: nat,
) -> Option<(nat, u32)> {
    let in_width = session.parameter(dispatch, 0) as nat;
    let in_height = session.parameter(dispatch, 1) as nat;
    let out_width = session.parameter(dispatch, 2) as nat;
    let out_height = session.parameter(dispatch, 3) as nat;
    let channels = session.parameter(dispatch, 4) as nat;
    if x >= out_width || y >= out_height || c >= channels {
        None
    } else {
        let src_x = min(scaled(x, in_width, out_width) as int, in_width - 1);
        let src_y = min(scaled(y, in_height, out_height) as int, in_height - 1);
        let src_base = (src_y * in_width + src_x) * channels;
        let dst_base = (y * out_width + x) * channels;
        Some(((dst_base + c) as nat, session.bound_word(dispatch, 0, (src_base + c) as nat)))
    }
}

/// Nearest-neighbour resizing gives each pixel of the output, channel by channel, the pixel of the
/// input whose column and row are those of the output pixel, scaled by the ratio of the widths and
/// that of the heights, and no further than the last ones.
pub proof fn law_nearest_takes_the_scaled_pixel<const C: usize>(
    before: WgpuSession,
    after: WgpuSession,
    input: GpuImage<F32, C>,
    new_size: ImageSize,
    output: GpuImage<F32, C>,
    pixels: Seq<F32>,
    scaled: spec_fn(nat, nat, nat) -> nat,
    x: nat,
    y: nat,
    c: nat,
)
    requires
        before.holds_image(input),
        before.can_resize(Kernel::ResizeNearest, input, new_size),
        after.resized_nearest(before, input, new_size, output),
        input.dims().numel(C) > 0,
        x < output.dims().width,
        y < output.dims().height,
        c < C,
    ensures
        ({
            let dispatch = after.handed_over();
            let (from, to) = (input.dims(), output.dims());
            let column = min(scaled(x, from.width as nat, to.width as nat) as int, from.width - 1);
            let row = min(scaled(y, from.height as nat, to.height as nat) as int, from.height - 1);
            let source = ((row * from.width + column) * C + c) as nat;
            let target = ((y * to.width + x) * C + c) as nat;
            let component = word_at(before.memory()[buffer_info(input.memory()).id], source);
            &&& source < from.numel(C)
            &&& target < to.numel(C)
            &&& dispatch.program == Kernel::ResizeNearest.program(before.device.features)
            &&& x < dispatch.groups.0 * 16 && y < dispatch.groups.1 * 16
            &&& dispatch.buffers[1] == buffer_info(output.memory()).id
            &&& nearest_store(after, dispatch, scaled, x, y, c) == Some((target, component))
            &&& before.image_bytes(input) == bytes_of(pixels) ==> component
                == pixels[source as int].bits
        }),
{
    let (from, to) = (input.dims(), output.dims());
    let kernel = Kernel::ResizeNearest;
    law_resize_passes_both_sizes(before, after, kernel, input, new_size, output);
    lemma_component_within(to, C, x, y, c);
    law_resize_writes_each_component_once(
        before,
        after,
        kernel,
        input,
        new_size,
        output,
        ((y * to.width + x) * C + c) as nat,
        x,
        y,
        c,
    );
    let column = min(scaled(x, from.width as nat, to.width as nat) as int, from.width - 1);
    let row = min(scaled(y, from.height as nat, to.height as nat) as int, from.height - 1);
    lemma_extents_positive(from, C);
    lemma_component_within(from, C, column as nat, row as nat, c);
    lemma_input_component(before, after, kernel, input, new_size, output, pixels, ((row * from.width
        + column) * C + c) as nat);
    assert((y * to.width + x) * C >= 0) by (nonlinear_arith);
    assert((row * from.width + column) * C >= 0) by (nonlinear_arith)
        requires
            row >= 0,
            column >= 0,
    ;
}

/// An image that has components has at least one row, column and channel.
proof fn lemma_extents_positive(size: ImageSize, channels: usize)
    requires
        size.numel(channels) > 0,
    ensures
        size.width > 0,
        size.height > 0,
        channels > 0,
{
    let (w, h, n) = (size.width as int, size.height as int, channels as int);
    assert(w > 0 && h > 0 && n > 0) by (nonlinear_arith)
        requires
            w * h * n > 0,
            w >= 0,
            h >= 0,
            n >= 0,
    ;
}

/// The components of the input are as they were, and as they were put there.
proof fn lemma_input_component<const C: usize>(
    before: WgpuSession,
    after: WgpuSession,
    kernel: Kernel,
    input: GpuImage<F32, C>,
    new_size: ImageSize,
    output: GpuImage<F32, C>,
    pixels: Seq<F32>,
    i: nat,
)
    requires
        before.holds_image(input),
        after.resized(before, kernel, input, new_size, output),
        i < input.dims().numel(C),
    ensures
        ({
            let id = buffer_info(input.memory()).id;
            &&& after.memory()[id] == before.memory()[id]
            &&& before.image_bytes(input) == bytes_of(pixels) ==> pixels.len() == input.dims().numel(C)
                && word_at(before.memory()[id], i) == pixels[i as int].bits
        }),
{
    (F32 { bits: 0 }).lemma_len();
    assert(before.live(buffer_info(input.memory()).id));
    if before.image_bytes(input) == bytes_of(pixels) {
        lemma_singles_read(
            before.memory()[buffer_info(input.memory()).id],
            pixels,
            input.dims().numel(C),
            i,
        );
    }
}

/// The arithmetic of bilinear sampling, whose rounding is the machine's: the column or row of the
/// pixel before a coordinate, which `u32(max(0.0, floor((f32(x) + 0.5) * (f32(in) / f32(out)) - 0.5)))`
/// is; how far behind it the coordinate is; and the value that far between two others.
pub struct Sampling {
    pub corner: spec_fn(nat, nat, nat) -> nat,
    pub weight: spec_fn(nat, nat, nat) -> u32,
    pub mix: spec_fn(u32, u32, u32) -> u32,
}

/// What the bilinear shader does in the invocation at `(x, y)` for channel `c`: the component of the
/// output that it stores to, and the bits that it stores.
pub open spec fn bilinear_store(
    session: WgpuSession,
    dispatch: Dispatch,
    s: Sampling,
    x: nat,
    y: nat,
    c: nat,
) -> Option<(nat, u32)> {
    let in_width = session.parameter(dispatch, 0) as nat;
    let in_height = session.parameter(dispatch, 1) as nat;
    let out_width = session.parameter(dispatch, 2) as nat;
    let out_height = session.parameter(dispatch, 3) as nat;
    let channels = session.parameter(dispatch, 4) as nat;
    if x >= out_width || y >= out_height || c >= channels {
        None
    } else {
        let x1 = (s.corner)(x, in_width, out_width) as int;
        let y1 = (s.corner)(y, in_height, out_height) as int;
        let x2 = min(x1 + 1, in_width - 1);
        let y2 = min(y1 + 1, in_height - 1);
        let wx = (s.weight)(x, in_width, out_width);
        let wy = (s.weight)(y, in_height, out_height);
        let p11 = session.bound_word(dispatch, 0, ((y1 * in_width + x1) * channels + c) as nat);
        let p12 = session.bound_word(dispatch, 0, ((y1 * in_width + x2) * channels + c) as nat);
        let p21 = session.bound_word(dispatch, 0, ((y2 * in_width + x1) * channels + c) as nat);
        let p22 = session.bound_word(dispatch, 0, ((y2 * in_width + x2) * channels + c) as nat);
        Some(
            (
                ((y * out_width + x) * channels + c) as nat,
                (s.mix)((s.mix)(p11, p12, wx), (s.mix)(p21, p22, wx), wy),
            ),
        )
    }
}

/// Bilinear resizing gives each pixel of the output, channel by channel, what lies between the four
/// pixels of the input round its scaled coordinates: mixed along the columns in both rows, and then
/// along the rows; beyond the last column and row there are those.
pub proof fn law_bilinear_mixes_the_four_pixels_round<const C: usize>(
    before: WgpuSession,
    after: WgpuSession,
    input: GpuImage<F32, C>,
    new_size: ImageSize,
    output: GpuImage<F32, C>,
    pixels: Seq<F32>,
    s: Sampling,
    x: nat,
    y: nat,
    c: nat,
)
    requires
        before.holds_image(input),
        before.can_resize(Kernel::ResizeBilinear, input, new_size),
        after.resized_bilinear(before, input, new_size, output),
        before.image_bytes(input) == bytes_of(pixels),
        x < output.dims().width,
        y < output.dims().height,
        c < C,
        (s.corner)(x, input.dims().width as nat, output.dims().width as nat) < input.dims().width,
        (s.corner)(y, input.dims().height as nat, output.dims().height as nat) < input.dims().height,
    ensures
        ({
            let dispatch = after.handed_over();
            let (from, to) = (input.dims(), output.dims());
            let left = (s.corner)(x, from.width as nat, to.width as nat);
            let upper = (s.corner)(y, from.height as nat, to.height as nat);
            let right = if left + 1 < from.width {
                left + 1
            } else {
                left
            };
            let lower = if upper + 1 < from.height {
                upper + 1
            } else {
                upper
            };
            let across = (s.weight)(x, from.width as nat, to.width as nat);
            let down = (s.weight)(y, from.height as nat, to.height as nat);
            let at = |row: nat, column: nat| pixels[(row * from.width + column) * C + c].bits;
            let target = ((y * to.width + x) * C + c) as nat;
            &&& pixels.len() == from.numel(C)
            &&& target < to.numel(C)
            &&& dispatch.program == Kernel::ResizeBilinear.program(before.device.features)
            &&& x < dispatch.groups.0 * 16 && y < dispatch.groups.1 * 16
            &&& dispatch.buffers[1] == buffer_info(output.memory()).id
            &&& bilinear_store(after, dispatch, s, x, y, c) == Some(
                (
                    target,
                    (s.mix)(
                        (s.mix)(at(upper, left), at(upper, right), across),
                        (s.mix)(at(lower, left), at(lower, right), across),
                        down,
                    ),
                ),
            )
        }),
{
    let (from, to) = (input.dims(), output.dims());
    let kernel = Kernel::ResizeBilinear;
    law_resize_passes_both_sizes(before, after, kernel, input, new_size, output);
    lemma_component_within(to, C, x, y, c);
    law_resize_writes_each_component_once(
        before,
        after,
        kernel,
        input,
        new_size,
        output,
        ((y * to.width + x) * C + c) as nat,
        x,
        y,
        c,
    );
    let left = (s.corner)(x, from.width as nat, to.width as nat);
    let upper = (s.corner)(y, from.height as nat, to.height as nat);
    let right = min(left + 1int, from.width - 1) as nat;
    let lower = min(upper + 1int, from.height - 1) as nat;
    lemma_component_within(from, C, left, upper, c);
    lemma_component_within(from, C, right, upper, c);
    lemma_component_within(from, C, left, lower, c);
    lemma_component_within(from, C, right, lower, c);
    assert((y * to.width + x) * C >= 0) by (nonlinear_arith);
    let w = from.width as nat;
    assert((upper * w + left) * C >= 0 && (upper * w + right) * C >= 0 && (lower * w + left) * C >= 0
        && (lower * w + right) * C >= 0) by (nonlinear_arith);
    lemma_input_component(before, after, kernel, input, new_size, output, pixels, ((upper * w + left)
        * C + c) as nat);
    lemma_input_component(before, after, kernel, input, new_size, output, pixels, ((upper * w + right)
        * C + c) as nat);
    lemma_input_component(before, after, kernel, input, new_size, output, pixels, ((lower * w + left)
        * C + c) as nat);
    lemma_input_component(before, after, kernel, input, new_size, output, pixels, ((lower * w + right)
        * C + c) as nat);
    let dispatch = after.handed_over();
    assert(after.bound_word(dispatch, 0, ((upper * w + left) * C + c) as nat) == pixels[(upper * w
        + left) * C + c].bits);
    assert(after.bound_word(dispatch, 0, ((upper * w + right) * C + c) as nat) == pixels[(upper * w
        + right) * C + c].bits);
    assert(after.bound_word(dispatch, 0, ((lower * w + left) * C + c) as nat) == pixels[(lower * w
        + left) * C + c].bits);
    assert(after.bound_word(dispatch, 0, ((lower * w + right) * C + c) as nat) == pixels[(lower * w
        + right) * C + c].bits);
    assert(bilinear_store(after, dispatch, s, x, y, c) is Some);
}

/// The text of the nearest-neighbour shader, paragraph by paragraph: its parameters and their order, its
/// invocation, and the statements that [`nearest_store`] gives the meaning of.
pub proof fn law_nearest_shader_text()
    ensures
        Kernel::ResizeNearest.body() == "\nstruct Immediates {\n    in_width: u32,\n    in_height: u32,\n    out_width: u32,\n    out_height: u32,\n    channels: u32,\n    _pad: u32,\n}\nvar<immediate> params: Immediates;\n\n"@
            + "@compute @workgroup_size(16, 16)\nfn main(@builtin(global_invocation_id) global_id: vec3<u32>) {\n    let x = global_id.x;\n    let y = global_id.y;\n\n"@
            + "    if (x >= params.out_width || y >= params.out_height) { return; }\n\n"@
            + "    let scale_x = f32(params.in_width)  / f32(params.out_width);\n    let scale_y = f32(params.in_height) / f32(params.out_height);\n\n"@
            + "    let src_x = min(u32(f32(x) * scale_x), params.in_width  - 1u);\n    let src_y = min(u32(f32(y) * scale_y), params.in_height - 1u);\n\n"@
            + "    let src_base = (src_y * params.in_width  + src_x) * params.channels;\n    let dst_base = (y    * params.out_width  + x)     * params.channels;\n\n"@
            + "    for (var c = 0u; c < params.channels; c++) {\n        output_buf[dst_base + c] = input_buf[src_base + c];\n    }\n}\n"@,
{
    reveal_strlit(
        r#"
struct Immediates {
    in_width: u32,
    in_height: u32,
    out_width: u32,
    out_height: u32,
    channels: u32,
    _pad: u32,
}
var<immediate> params: Immediates;

@compute @workgroup_size(16, 16)
fn main(@builtin(global_invocation_id) global_id: vec3<u32>) {
    let x = global_id.x;
    let y = global_id.y;

    if (x >= params.out_width || y >= params.out_height) { return; }

    let scale_x = f32(params.in_width)  / f32(params.out_width);
    let scale_y = f32(params.in_height) / f32(params.out_height);

    let src_x = min(u32(f32(x) * scale_x), params.in_width  - 1u);
    let src_y = min(u32(f32(y) * scale_y), params.in_height - 1u);

    let src_base = (src_y * params.in_width  + src_x) * params.channels;
    let dst_base = (y    * params.out_width  + x)     * params.channels;

    for (var c = 0u; c < params.channels; c++) {
        output_buf[dst_base + c] = input_buf[src_base + c];
    }
}
"#,
    );
    reveal_strlit("\nstruct Immediates {\n    in_width: u32,\n    in_height: u32,\n    out_width: u32,\n    out_height: u32,\n    channels: u32,\n    _pad: u32,\n}\nvar<immediate> params: Immediates;\n\n");
    reveal_strlit("@compute @workgroup_size(16, 16)\nfn main(@builtin(global_invocation_id) global_id: vec3<u32>) {\n    let x = global_id.x;\n    let y = global_id.y;\n\n");
    reveal_strlit("    if (x >= params.out_width || y >= params.out_height) { return; }\n\n");
    reveal_strlit("    let scale_x = f32(params.in_width)  / f32(params.out_width);\n    let scale_y = f32(params.in_height) / f32(params.out_height);\n\n");
    reveal_strlit("    let src_x = min(u32(f32(x) * scale_x), params.in_width  - 1u);\n    let src_y = min(u32(f32(y) * scale_y), params.in_height - 1u);\n\n");
    reveal_strlit("    let src_base = (src_y * params.in_width  + src_x) * params.channels;\n    let dst_base = (y    * params.out_width  + x)     * params.channels;\n\n");
    reveal_strlit("    for (var c = 0u; c < params.channels; c++) {\n        output_buf[dst_base + c] = input_buf[src_base + c];\n    }\n}\n");
}

/// The text of the bilinear shader, paragraph by paragraph: its parameters and their order, its
/// invocation, and the statements that [`bilinear_store`] gives the meaning of.
pub proof fn law_bilinear_shader_text()
    ensures
        Kernel::ResizeBilinear.body() == "\nstruct PushConstants {\n    in_width: u32,\n    in_height: u32,\n    out_width: u32,\n    out_height: u32,\n    channels: u32,\n    _pad: u32,\n}\nvar<immediate> params: PushConstants;\n\n"@
            + "@compute @workgroup_size(16, 16)\nfn main(@builtin(global_invocation_id) global_id: vec3<u32>) {\n    let x = global_id.x;\n    let y = global_id.y;\n\n"@
            + "    if (x >= params.out_width || y >= params.out_height) { return; }\n\n"@
            + "    let scale_x = f32(params.in_width)  / f32(params.out_width);\n    let scale_y = f32(params.in_height) / f32(params.out_height);\n\n"@
            + "    let src_x = (f32(x) + 0.5) * scale_x - 0.5;\n    let src_y = (f32(y) + 0.5) * scale_y - 0.5;\n\n"@
            + "    let x1 = u32(max(0.0, floor(src_x)));\n    let y1 = u32(max(0.0, floor(src_y)));\n    let x2 = min(x1 + 1u, params.in_width  - 1u);\n    let y2 = min(y1 + 1u, params.in_height - 1u);\n\n"@
            + "    let wx = max(0.0, src_x - f32(x1));\n    let wy = max(0.0, src_y - f32(y1));\n\n"@
            + "    let dst_base = (y * params.out_width + x) * params.channels;\n\n"@
            + "    for (var c = 0u; c < params.channels; c++) {\n        let p11 = input_buf[(y1 * params.in_width + x1) * params.channels + c];\n        let p12 = input_buf[(y1 * params.in_width + x2) * params.channels + c];\n        let p21 = input_buf[(y2 * params.in_width + x1) * params.channels + c];\n        let p22 = input_buf[(y2 * params.in_width + x2) * params.channels + c];\n\n"@
            + "        output_buf[dst_base + c] = mix(mix(p11, p12, wx), mix(p21, p22, wx), wy);\n    }\n}\n"@,
{
    reveal_strlit(
        r#"
struct PushConstants {
    in_width: u32,
    in_height: u32,
    out_width: u32,
    out_height: u32,
    channels: u32,
    _pad: u32,
}
var<immediate> params: PushConstants;

@compute @workgroup_size(16, 16)
fn main(@builtin(global_invocation_id) global_id: vec3<u32>) {
    let x = global_id.x;
    let y = global_id.y;

    if (x >= params.out_width || y >= params.out_height) { return; }

    let scale_x = f32(params.in_width)  / f32(params.out_width);
    let scale_y = f32(params.in_height) / f32(params.out_height);

    let src_x = (f32(x) + 0.5) * scale_x - 0.5;
    let src_y = (f32(y) + 0.5) * scale_y - 0.5;

    let x1 = u32(max(0.0, floor(src_x)));
    let y1 = u32(max(0.0, floor(src_y)));
    let x2 = min(x1 + 1u, params.in_width  - 1u);
    let y2 = min(y1 + 1u, params.in_height - 1u);

    let wx = max(0.0, src_x - f32(x1));
    let wy = max(0.0, src_y - f32(y1));

    let dst_base = (y * params.out_width + x) * params.channels;

    for (var c = 0u; c < params.channels; c++) {
        let p11 = input_buf[(y1 * params.in_width + x1) * params.channels + c];
        let p12 = input_buf[(y1 * params.in_width + x2) * params.channels + c];
        let p21 = input_buf[(y2 * params.in_width + x1) * params.channels + c];
        let p22 = input_buf[(y2 * params.in_width + x2) * params.channels + c];

        output_buf[dst_base + c] = mix(mix(p11, p12, wx), mix(p21, p22, wx), wy);
    }
}
"#,
    );
    reveal_strlit("\nstruct PushConstants {\n    in_width: u32,\n    in_height: u32,\n    out_width: u32,\n    out_height: u32,\n    channels: u32,\n    _pad: u32,\n}\nvar<immediate> params: PushConstants;\n\n");
    reveal_strlit("@compute @workgroup_size(16, 16)\nfn main(@builtin(global_invocation_id) global_id: vec3<u32>) {\n    let x = global_id.x;\n    let y = global_id.y;\n\n");
    reveal_strlit("    if (x >= params.out_width || y >= params.out_height) { return; }\n\n");
    reveal_strlit("    let scale_x = f32(params.in_width)  / f32(params.out_width);\n    let scale_y = f32(params.in_height) / f32(params.out_height);\n\n");
    reveal_strlit("    let src_x = (f32(x) + 0.5) * scale_x - 0.5;\n    let src_y = (f32(y) + 0.5) * scale_y - 0.5;\n\n");
    reveal_strlit("    let x1 = u32(max(0.0, floor(src_x)));\n    let y1 = u32(max(0.0, floor(src_y)));\n    let x2 = min(x1 + 1u, params.in_width  - 1u);\n    let y2 = min(y1 + 1u, params.in_height - 1u);\n\n");
    reveal_strlit("    let wx = max(0.0, src_x - f32(x1));\n    let wy = max(0.0, src_y - f32(y1));\n\n");
    reveal_strlit("    let dst_base = (y * params.out_width + x) * params.channels;\n\n");
    reveal_strlit("    for (var c = 0u; c < params.channels; c++) {\n        let p11 = input_buf[(y1 * params.in_width + x1) * params.channels + c];\n        let p12 = input_buf[(y1 * params.in_width + x2) * params.channels + c];\n        let p21 = input_buf[(y2 * params.in_width + x1) * params.channels + c];\n        let p22 = input_buf[(y2 * params.in_width + x2) * params.channels + c];\n\n");
    reveal_strlit("        output_buf[dst_base + c] = mix(mix(p11, p12, wx), mix(p21, p22, wx), wy);\n    }\n}\n");
}

/// The pipeline of a resize is kept by the name of its shader and the number of channels: the first resize
/// with them compiles it, any other finds it, and no other pipeline is touched.
pub proof fn law_resize_is_compiled_once_per_channel_count<const C: usize>(
    before: WgpuSession,
    after: WgpuSession,
    kernel: Kernel,
    input: GpuImage<F32, C>,
    new_size: ImageSize,
    output: GpuImage<F32, C>,
)
    requires
        before.wf(),
        kernel == Kernel::ResizeNearest || kernel == Kernel::ResizeBilinear,
        after.resized(before, kernel, input, new_size, output),
    ensures
        ({
            let program = kernel.program(before.device.features);
            let kept = Key {
                shader_name: if kernel == Kernel::ResizeNearest {
                    "ResizeNearest"@
                } else {
                    "ResizeBilinear"@
                },
                pixel_bytes: 4,
                channels: C as u8,
                wg_x: 16,
                wg_y: 16,
                variant: 0,
            };
            &&& after.device.cache().contains_key(kept)
            &&& after.device.cache()[kept].program == program
            &&& forall|key: Key|
                key != kept ==> (#[trigger] after.device.cache().contains_key(key)
                    <==> before.device.cache().contains_key(key))
            &&& after.gpu().compiled() == if before.device.cache().contains_key(kept) {
                before.gpu().compiled()
            } else {
                before.gpu().compiled().push(program)
            }
        }),
{
    lemma_kept_under(
        before,
        after,
        kernel,
        resize_request(kernel, C, input.dims(), input.memory(), new_size, output.memory()),
    );
}

/// A resize is possible on any device that runs the shader and binds the buffers, where a power of two
/// that is large enough for the output is within its limits, up to 16 rows or columns for each workgroup
/// that the grid may have in a dimension.
pub proof fn law_resize_is_possible_within_the_limits<const C: usize>(
    session: WgpuSession,
    kernel: Kernel,
    input: GpuImage<F32, C>,
    new_size: ImageSize,
    class: nat,
)
    requires
        kernel.runs_on(session.device.limits, session.device.features),
        buffer_info(input.memory()).size <= session.device.limits.max_storage_buffer_binding_size,
        new_size.width * new_size.height <= usize::MAX,
        new_size.width * C <= usize::MAX,
        new_size.width * new_size.height * C * 4 <= usize::MAX,
        new_size.width * new_size.height * C * 4 <= class,
        is_power_of_two(class),
        64 <= class <= session.device.limits.max_storage_buffer_binding_size,
        class <= session.device.limits.max_buffer_size,
        new_size.width <= u32::MAX,
        new_size.height <= u32::MAX,
        new_size.width <= 16 * session.device.limits.max_compute_workgroups_per_dimension,
        new_size.height <= 16 * session.device.limits.max_compute_workgroups_per_dimension,
        1 <= session.device.limits.max_compute_workgroups_per_dimension,
    ensures
        session.can_resize(kernel, input, new_size),
{
    (F32 { bits: 0 }).lemma_len();
    law_allocations_reach_the_limit(session, new_size.numel(C) * 4, class);
    law_size_class_is_the_smallest(new_size.numel(C) * 4, class);
    lemma_groups_for(new_size.width as nat, 16);
    lemma_groups_for(new_size.height as nat, 16);
}

} // verus!
