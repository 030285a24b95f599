//! Operations executable on the GPU (e.g., resizing, casting, elementwise ops).
pub mod image;
pub mod tensor;

use vstd::arithmetic::div_mod::*;
use vstd::prelude::*;

use crate::bytes::{bytes_of, encode, law_words_are_read_back, lemma_word_bytes, word_at};
use crate::device::{found, looked_up, newest};
use crate::error::WgpuError;
use crate::gpu::{
    buffer_info, create_command_encoder, recorded, submit, Access, BufferInfo, Command, Dispatch,
    LayoutEntry, Program,
};
use crate::kernel::{is_kernel_name, kernel_named, law_names_tell_kernels_apart, Kernel};
use crate::pipeline::{
    bound, compiles, create_bind_group, dispatches, error_text, get_bind_group_layout, has_room,
    holds_elements, ids_of, is_own, record_dispatch, sizes_of, slots, suits, BoundBuffer,
    PipelineInfo,
};
use crate::pool::{
    after_release, compute_use, kept, law_released_buffer_is_reused, lemma_class_covers,
    lemma_stock_unaffected, size_class, staging_use, MIN_CLASS,
};
use crate::session::WgpuSession;
use crate::shader::{
    falls_back, layout_of, next_slot, program_of, with_declarations, Key, Kind, PipelineKey,
    ShaderKind, WgslShader,
};
use crate::transfer::lemma_lengths_kept;

verus! {

// ── Grids ────────────────────────────────────────────────────────────────────

/// How many groups of `d` it takes to cover `n`.
pub open spec fn groups_for(n: nat, d: nat) -> nat {
    ((n + d - 1) / d as int) as nat
}

/// The groups cover `n`, and one less would not.
pub proof fn lemma_groups_for(n: nat, d: nat)
    requires
        d > 0,
    ensures
        groups_for(n, d) * d >= n,
        groups_for(n, d) * d < n + d,
        n > 0 ==> groups_for(n, d) > 0,
        groups_for(n, d) <= n,
{
    let g = groups_for(n, d) as int;
    lemma_fundamental_div_mod(n + d - 1, d as int);
    let r = (n + d - 1) % (d as int);
    assert(0 <= r < d);
    assert(d * g == g * d) by (nonlinear_arith);
    if n > 0 {
        assert(g > 0) by (nonlinear_arith)
            requires
                g * d >= n,
                n > 0,
                d > 0,
        ;
    }
    assert(g <= n) by (nonlinear_arith)
        requires
            g * d <= n + d - 1,
            d >= 1,
            n >= 0,
            g >= 0,
    ;
}

/// How many groups of `d` it takes to cover `n`.
pub fn div_ceil(n: u32, d: u32) -> (groups: u32)
    requires
        d > 0,
    ensures
        groups == groups_for(n as nat, d as nat),
{
    let q: u32 = n / d;
    proof {
        lemma_fundamental_div_mod(n as int, d as int);
        assert(d * q == q * d) by (nonlinear_arith);
        if n % d > 0 {
            assert(n + d - 1 == (q + 1) * d + (n % d - 1)) by (nonlinear_arith)
                requires
                    n == q * d + n % d,
            ;
            lemma_fundamental_div_mod_converse(n + d - 1, d as int, q + 1, n % d - 1);
            assert(q < u32::MAX) by (nonlinear_arith)
                requires
                    n == q * d + n % d,
                    n <= u32::MAX,
                    n % d > 0,
                    d >= 1,
                    q >= 0,
            ;
        } else {
            assert(n + d - 1 == q * d + (d - 1)) by (nonlinear_arith)
                requires
                    n == q * d,
            ;
            lemma_fundamental_div_mod_converse(n + d - 1, d as int, q as int, d - 1);
        }
    }
    if n % d > 0 {
        q + 1
    } else {
        q
    }
}

/// The number of workgroups that one dimension of a grid may have on any device.
pub const MAX_WORKGROUPS: u32 = 65535;

/// The grid for `total` workgroups in a row: one row where it is short enough, or else as few rows
/// of equal length as make it so.
pub open spec fn grid_for(total: nat) -> (nat, nat) {
    if total <= MAX_WORKGROUPS {
        (total, 1)
    } else {
        let rows = groups_for(total, MAX_WORKGROUPS as nat);
        (groups_for(total, rows), rows)
    }
}

/// A grid has all the workgroups it is for, less than a column too many, and no dimension over
/// [`MAX_WORKGROUPS`] as long as a square of that side has room for them; with fewer rows, a row
/// would be too long.
pub proof fn law_grid_covers_the_row(total: nat, fewer: nat)
    ensures
        ({
            let (x, y) = grid_for(total);
            &&& x <= MAX_WORKGROUPS
            &&& y >= 1
            &&& total <= MAX_WORKGROUPS * MAX_WORKGROUPS ==> y <= MAX_WORKGROUPS
            &&& total <= x * y < total + y
            &&& fewer < y ==> fewer * MAX_WORKGROUPS < total || fewer == 0
        }),
{
    let (x, y) = grid_for(total);
    if total <= MAX_WORKGROUPS {
        assert(x * y == total) by (nonlinear_arith)
            requires
                x == total,
                y == 1,
        ;
    } else {
        let m = MAX_WORKGROUPS as nat;
        lemma_groups_for(total, m);
        lemma_groups_for(total, y);
        assert(x <= m) by (nonlinear_arith)
            requires
                x * y < total + y,
                total <= y * m,
                y > 0,
        ;
        if total <= m * m {
            assert(y <= m) by (nonlinear_arith)
                requires
                    y * m < total + m,
                    total <= m * m,
                    m > 0,
            ;
        }
        if fewer < y {
            assert(fewer * m < total) by (nonlinear_arith)
                requires
                    fewer + 1 <= y,
                    y * m < total + m,
            ;
        }
    }
}

/// The grid for `total` workgroups in a row.
pub fn grid(total: u32) -> (size: (u32, u32))
    ensures
        (size.0 as nat, size.1 as nat) == grid_for(total as nat),
{
    if total <= MAX_WORKGROUPS {
        (total, 1)
    } else {
        let wg_y: u32 = div_ceil(total, MAX_WORKGROUPS);
        proof {
            lemma_groups_for(total as nat, MAX_WORKGROUPS as nat);
        }
        let wg_x: u32 = div_ceil(total, wg_y);
        (wg_x, wg_y)
    }
}

/// Each index is reached by exactly one invocation of a grid whose rows are read one after the
/// other, `width` invocations each: the one at `index % width` in row `index / width`.
pub proof fn law_rows_reach_each_index_once(index: nat, width: nat, rows: nat, x: nat, y: nat)
    requires
        width > 0,
        index < width * rows,
    ensures
        index % width < width,
        index / width < rows,
        (index % width) + (index / width) * width == index,
        x < width && x + y * width == index ==> x == index % width && y == index / width,
{
    lemma_fundamental_div_mod(index as int, width as int);
    let q = index / width;
    assert(q * width == width * q) by (nonlinear_arith);
    assert(q < rows) by (nonlinear_arith)
        requires
            q * width <= index,
            index < width * rows,
            width > 0,
    ;
    if x < width && x + y * width == index {
        lemma_fundamental_div_mod_converse(index as int, width as int, y as int, x as int);
    }
}

/// The grid of workgroups of size `wg` over `n` has an invocation for each index below `n`, and
/// each index is that of one workgroup.
pub proof fn law_tiles_reach_each_index(index: nat, n: nat, wg: nat)
    requires
        wg > 0,
        index < n,
    ensures
        index < groups_for(n, wg) * wg,
        index / wg < groups_for(n, wg),
{
    lemma_groups_for(n, wg);
    assert(wg * groups_for(n, wg) == groups_for(n, wg) * wg) by (nonlinear_arith);
    law_rows_reach_each_index_once(index, wg, groups_for(n, wg), 0, 0);
}

// ── Dispatching ──────────────────────────────────────────────────────────────

/// Immediate data of a shader: a few words.
pub trait Immediates {
    /// The words, in order.
    spec fn words(&self) -> Seq<u32>;

    /// The words, in order.
    fn to_words(&self) -> (words: Vec<u32>)
        ensures
            words@ == self.words(),
    ;
}

/// What is dispatched: the pipeline of a shader, looked up by a key, with buffers bound to it, with
/// parameters, and over a grid.
pub struct Request {
    pub key: Key,
    pub kind: Kind,
    pub source: Seq<char>,
    pub buffers: Map<u32, BufferInfo>,
    pub parameters: Seq<u8>,
    pub groups: (u32, u32),
}

impl Request {
    /// The parameters are passed in a uniform buffer, in this slot.
    pub open spec fn slot(self) -> u32 {
        next_slot(self.kind.bindings) as u32
    }
}

impl WgpuSession {
    /// The parameters of the request go through the buffer for them.
    pub open spec fn buffers_parameters(self, request: Request) -> bool {
        falls_back(self.device.features, request.parameters.len())
    }

    /// The pipeline that would be made for the request.
    pub open spec fn made_for(self, request: Request) -> PipelineInfo {
        newest(
            self.gpu().info().id,
            self.gpu().compiled(),
            program_of(
                request.kind,
                with_declarations(request.kind.bindings, request.source),
                request.parameters.len() as u32,
                self.device.features,
            ),
        )
    }

    /// The program that runs: that of the pipeline that is kept under the key, or else the one that
    /// is made for the request.
    pub open spec fn program_for(self, request: Request) -> Program {
        found(self.device.cache(), request.key, self.made_for(request)).program
    }

    /// What is bound to the entry of a layout: one of the request's buffers, or the parameters.
    pub open spec fn fills(self, request: Request, entry: LayoutEntry) -> bool {
        if self.buffers_parameters(request) && entry.slot == request.slot() {
            entry.access == Access::Uniform
        } else {
            &&& request.buffers.contains_key(entry.slot)
            &&& suits(request.buffers[entry.slot], entry.access, self.device.limits)
        }
    }

    /// The request can be made: what it binds is what the program's layout asks for, no buffer is
    /// bound for writing and in another way too, the parameters are as many as the program takes,
    /// and the grid is within the limits.
    pub open spec fn takes(self, request: Request) -> bool {
        let entries = self.program_for(request).entries;
        let limits = self.device.limits;
        let n = request.parameters.len();
        &&& request.buffers.dom().finite()
        &&& forall|i: int| 0 <= i < entries.len() ==> self.fills(request, #[trigger] entries[i])
        &&& forall|i: int, j: int|
            0 <= i < j < entries.len() ==> (#[trigger] entries[i]).slot != (
            #[trigger] entries[j]).slot
        &&& forall|slot: u32| #[trigger]
            request.buffers.contains_key(slot) ==> slots(entries).contains(slot)
        &&& forall|i: int, j: int|
            #![trigger entries[i], entries[j]]
            0 <= i < entries.len() && 0 <= j < entries.len() && i != j && entries[i].access
                == Access::Write && !(self.buffers_parameters(request) && entries[j].slot
                == request.slot()) ==> request.buffers[entries[i].slot].id
                != request.buffers[entries[j].slot].id
        &&& n <= u32::MAX
        &&& if self.buffers_parameters(request) {
            &&& next_slot(request.kind.bindings) <= u32::MAX
            &&& !request.buffers.contains_key(request.slot())
            &&& slots(entries).contains(request.slot())
            &&& self.program_for(request).immediate_size == 0
            &&& self.can_allocate(n)
            &&& size_class(n) <= limits.max_uniform_buffer_binding_size
        } else {
            self.program_for(request).immediate_size == n
        }
        &&& request.groups.0 <= limits.max_compute_workgroups_per_dimension
        &&& request.groups.1 <= limits.max_compute_workgroups_per_dimension
        &&& 1 <= limits.max_compute_workgroups_per_dimension
    }

    /// The buffer is on the device and not mapped, and it is not the one for parameters.
    pub open spec fn can_bind_buffer(self, buffer: wgpu::Buffer) -> bool {
        self.gpu().usable(buffer) && !self.is_parameter(buffer_info(buffer).id)
    }

    /// The size of what is bound to each slot once the parameters are passed.
    pub open spec fn sizes_for(self, request: Request) -> Map<u32, u64> {
        let n = request.parameters.len();
        if self.buffers_parameters(request) {
            sizes_of(request.buffers).insert(
                request.slot(),
                if self.has_parameters(n) {
                    buffer_info(self.parameters->0).size
                } else {
                    size_class(n) as u64
                },
            )
        } else {
            sizes_of(request.buffers)
        }
    }

    /// The device takes the shader of the request, or has taken one for its key, and the buffers are
    /// large enough for it.
    pub open spec fn accepts(self, request: Request) -> bool {
        let info = self.gpu().info();
        let program = self.program_for(request);
        &&& self.device.cache().contains_key(request.key) || compiles(info, program)
        &&& dispatches(info, program, self.sizes_for(request))
    }

    /// What is bound to each slot once the parameters were passed.
    pub open spec fn all_bound(self, request: Request) -> Map<u32, BufferInfo> {
        if self.buffers_parameters(request) {
            request.buffers.insert(request.slot(), buffer_info(self.parameters->0))
        } else {
            request.buffers
        }
    }

    /// The dispatch of the request.
    pub open spec fn dispatch_of(self, program: Program, request: Request) -> Dispatch {
        Dispatch {
            program,
            buffers: ids_of(self.all_bound(request)),
            immediates: if self.buffers_parameters(request) {
                Seq::empty()
            } else {
                request.parameters
            },
            groups: (request.groups.0, request.groups.1, 1),
        }
    }

    /// The parameters were passed: through the buffer for them, or else with the dispatch, and then
    /// no buffer was created.
    pub open spec fn parametrized(self, before: WgpuSession, parameters: Seq<u8>) -> bool {
        if falls_back(before.device.features, parameters.len()) {
            self.passed(before, parameters)
        } else {
            self.parameters == before.parameters && self.memory().dom() == before.memory().dom()
        }
    }

    /// The pools are as `before`, and so is all that is known of the device.
    pub open spec fn same_pools(self, before: WgpuSession) -> bool {
        &&& self.compute_pool == before.compute_pool
        &&& self.staging_pool == before.staging_pool
        &&& self.device.same_setup(before.device)
        &&& self.gpu().mapped() == before.gpu().mapped()
    }

    /// The pipeline of the request was looked up.
    pub open spec fn found_pipeline(self, before: WgpuSession, request: Request) -> bool {
        (self.device.cache(), self.gpu().compiled()) == looked_up(
            before.device.cache(),
            before.gpu().compiled(),
            request.key,
            before.made_for(request),
        )
    }

    /// This is `before` with the request handed over: its pipeline was looked up, its parameters
    /// were passed, and only what the dispatch writes to may have changed.
    pub open spec fn ran(self, before: WgpuSession, request: Request) -> bool {
        let dispatch = self.dispatch_of(before.program_for(request), request);
        &&& self.same_pools(before)
        &&& self.found_pipeline(before, request)
        &&& self.parametrized(before, request.parameters)
        &&& self.gpu().dispatched() == before.gpu().dispatched().push(dispatch)
        &&& forall|id: nat| #[trigger]
            before.memory().contains_key(id) ==> self.memory()[id].len() == before.memory()[id].len()
                && (!dispatch.writes(id) && !self.is_parameter(id) ==> self.memory()[id]
                == before.memory()[id])
    }
}

/// What is bound to a slot is one of the buffers, and each buffer's slot is bound.
proof fn lemma_bound(entries: Seq<BoundBuffer<'_>>)
    ensures
        bound(entries).dom().finite(),
        forall|slot: u32| #[trigger]
            bound(entries).contains_key(slot) ==> exists|i: int|
                0 <= i < entries.len() && (#[trigger] entries[i]).slot == slot && bound(
                    entries,
                )[slot] == buffer_info(*entries[i].buffer),
        forall|i: int|
            0 <= i < entries.len() ==> bound(entries).contains_key((#[trigger] entries[i]).slot),
        (forall|i: int, j: int|
            0 <= i < j < entries.len() ==> (#[trigger] entries[i]).slot != (
            #[trigger] entries[j]).slot) ==> bound(entries).dom().len() == entries.len(),
    decreases entries.len(),
{
    if entries.len() > 0 {
        let rest = entries.drop_last();
        lemma_bound(rest);
        assert forall|slot: u32| #[trigger] bound(entries).contains_key(slot) implies exists|i: int|
            0 <= i < entries.len() && (#[trigger] entries[i]).slot == slot && bound(entries)[slot]
                == buffer_info(*entries[i].buffer) by {
            if slot == entries.last().slot {
                assert(entries[entries.len() - 1].slot == slot);
            } else {
                let i = choose|i: int|
                    0 <= i < rest.len() && (#[trigger] rest[i]).slot == slot && bound(rest)[slot]
                        == buffer_info(*rest[i].buffer);
                assert(entries[i] == rest[i]);
            }
        }
        assert forall|i: int| 0 <= i < entries.len() implies bound(entries).contains_key(
            (#[trigger] entries[i]).slot,
        ) by {
            if i < rest.len() {
                assert(entries[i] == rest[i]);
            }
        }
        if forall|i: int, j: int|
            0 <= i < j < entries.len() ==> (#[trigger] entries[i]).slot != (
            #[trigger] entries[j]).slot {
            assert forall|i: int, j: int| 0 <= i < j < rest.len() implies (#[trigger] rest[i]).slot
                != (#[trigger] rest[j]).slot by {
                assert(entries[i] == rest[i] && entries[j] == rest[j]);
            }
            if bound(rest).contains_key(entries.last().slot) {
                let i = choose|i: int|
                    0 <= i < rest.len() && (#[trigger] rest[i]).slot == entries.last().slot;
                assert(entries[i] == rest[i]);
                assert(entries[i].slot != entries[entries.len() - 1].slot);
            }
            assert(bound(entries).dom() =~= bound(rest).dom().insert(entries.last().slot));
        }
    }
}

/// A slot of a layout is that of one of its entries; distinct ones are as many.
pub proof fn lemma_slots(entries: Seq<LayoutEntry>)
    requires
        forall|i: int, j: int|
            0 <= i < j < entries.len() ==> (#[trigger] entries[i]).slot != (
            #[trigger] entries[j]).slot,
    ensures
        forall|slot: u32| #[trigger]
            slots(entries).contains(slot) <==> exists|i: int|
                0 <= i < entries.len() && (#[trigger] entries[i]).slot == slot,
        slots(entries).len() == entries.len(),
{
    let all = entries.map_values(|e: LayoutEntry| e.slot);
    assert forall|slot: u32| #[trigger] slots(entries).contains(slot) <==> exists|i: int|
        0 <= i < entries.len() && (#[trigger] entries[i]).slot == slot by {
        if slots(entries).contains(slot) {
            let i = choose|i: int| 0 <= i < all.len() && all[i] == slot;
            assert(entries[i].slot == slot);
        }
        if exists|i: int| 0 <= i < entries.len() && (#[trigger] entries[i]).slot == slot {
            let i = choose|i: int| 0 <= i < entries.len() && (#[trigger] entries[i]).slot == slot;
            assert(all[i] == slot);
            assert(all.contains(slot));
        }
    }
    assert(all.no_duplicates()) by {
        assert forall|i: int, j: int| 0 <= i < j < all.len() implies all[i] != all[j] by {
            assert(entries[i].slot != entries[j].slot);
        }
    }
    all.unique_seq_to_set();
}

/// Looking a pipeline up leaves a session in order.
proof fn lemma_lookup(before: WgpuSession, after: WgpuSession)
    requires
        before.sound(),
        after.device.wf(),
        after.same_pools(before),
        after.parameters == before.parameters,
        after.memory() == before.memory(),
    ensures
        after.sound(),
        forall|id: nat| #[trigger] before.live(id) ==> after.live(id),
{
    lemma_stock_unaffected(before.compute_pool@, before.gpu(), after.gpu(), compute_use());
    lemma_stock_unaffected(before.staging_pool@, before.gpu(), after.gpu(), staging_use());
}

/// Looks the pipeline of a shader up, binds the buffers to it, passes the parameters and hands one
/// dispatch over; or else says that the device takes the shader or the buffers not.
#[verifier::spinoff_prover]
#[verifier::rlimit(60)]
fn try_run(
    session: &mut WgpuSession,
    key: PipelineKey,
    kind: ShaderKind,
    source: &str,
    label: &str,
    encoder_label: Option<&str>,
    entries: &Vec<BoundBuffer<'_>>,
    words: &[u32],
    groups: (u32, u32),
) -> (outcome: Result<(), WgpuError>)
    requires
        old(session).sound(),
        forall|i: int|
            0 <= i < entries@.len() ==> old(session).can_bind_buffer(
                *(#[trigger] entries@[i]).buffer,
            ),
        forall|i: int, j: int|
            0 <= i < j < entries@.len() ==> (#[trigger] entries@[i]).slot != (
            #[trigger] entries@[j]).slot,
        old(session).takes(
            (Request {
                key: key@,
                kind: kind@,
                source: source@,
                buffers: bound(entries@),
                parameters: bytes_of(words@),
                groups,
            }),
        ),
    ensures
        final(session).sound(),
        forall|id: nat| #[trigger] old(session).live(id) ==> final(session).live(id),
        ({
            let request = Request {
                key: key@,
                kind: kind@,
                source: source@,
                buffers: bound(entries@),
                parameters: bytes_of(words@),
                groups,
            };
            let info = old(session).gpu().info();
            let program = old(session).program_for(request);
            let had = old(session).device.cache().contains_key(key@);
            match outcome {
                Ok(_) => {
                    &&& old(session).accepts(request)
                    &&& final(session).ran(*old(session), request)
                },
                Err(WgpuError::ShaderCompilation { shader, .. }) => {
                    &&& !had && !compiles(info, program)
                    &&& shader@ == key@.shader_name
                    &&& final(session).same_pools(*old(session))
                    &&& final(session).parameters == old(session).parameters
                    &&& final(session).memory() == old(session).memory()
                    &&& final(session).device.cache() == old(session).device.cache()
                    &&& final(session).gpu().compiled() == old(session).gpu().compiled()
                    &&& final(session).gpu().dispatched() == old(session).gpu().dispatched()
                },
                Err(error) => {
                    &&& error is Custom
                    &&& had || compiles(info, program)
                    &&& !dispatches(info, program, old(session).sizes_for(request))
                    &&& final(session).same_pools(*old(session))
                    &&& final(session).found_pipeline(*old(session), request)
                    &&& final(session).parametrized(*old(session), request.parameters)
                    &&& final(session).gpu().dispatched() == old(session).gpu().dispatched()
                    &&& forall|id: nat| #[trigger]
                        old(session).memory().contains_key(id) && !final(session).is_parameter(id)
                            ==> final(session).memory()[id] == old(session).memory()[id]
                },
            }
        }),
{
    let ghost request = Request {
        key: key@,
        kind: kind@,
        source: source@,
        buffers: bound(entries@),
        parameters: bytes_of(words@),
        groups,
    };
    proof {
        lemma_word_bytes(words@);
        if old(session).device.cache().contains_key(key@) {
            old(session).device.lemma_cached(key@);
        }
        lemma_bound(entries@);
    }
    let parameters: Vec<u8> = encode(words);
    let size: u32 = parameters.len() as u32;
    let slot: Option<u32> = if !session.device.features.immediates && size > 0 {
        kind.free_slot()
    } else {
        None
    };
    let mut shader = WgslShader { kind, source: source.to_owned() };
    shader.build();
    let pipeline = match session.device.try_pipeline(key, &shader, size) {
        Ok(pipeline) => pipeline,
        Err(error) => {
            proof {
                lemma_lookup(*old(session), *session);
            }
            return Err(error);
        },
    };
    proof {
        lemma_lookup(*old(session), *session);
    }
    let ghost looked = *session;
    let ghost program = old(session).program_for(request);
    if let Some(_) = slot {
        session.pass_parameters(parameters.as_slice());
    }
    let ghost passed = *session;
    assert forall|id: nat| #[trigger] old(session).memory().contains_key(
        id,
    ) implies passed.memory().contains_key(id) && passed.memory()[id].len() == old(
        session,
    ).memory()[id].len() && (!passed.is_parameter(id) ==> passed.memory()[id] == old(
        session,
    ).memory()[id]) by {
        assert(looked.memory().contains_key(id));
    }
    let mut all: Vec<BoundBuffer<'_>> = Vec::new();
    for i in 0..entries.len()
        invariant
            all@ == entries@.take(i as int),
    {
        all.push(entries[i]);
        assert(all@ =~= entries@.take(i + 1));
    }
    assert(all@ =~= entries@);
    if let Some(slot) = slot {
        if let Some(buffer) = &session.parameters {
            all.push(BoundBuffer { slot, buffer });
            assert(all@.drop_last() =~= entries@);
        }
    }
    assert(bound(all@) == session.all_bound(request));
    assert(sizes_of(bound(all@)) =~= old(session).sizes_for(request));
    proof {
        lemma_bound(all@);
        lemma_slots(program.entries);
        assert(bound(all@).dom() =~= slots(program.entries));
        assert forall|i: int| 0 <= i < program.entries.len() implies {
            let entry = #[trigger] program.entries[i];
            &&& bound(all@)[entry.slot].device == session.gpu().info().id
            &&& suits(bound(all@)[entry.slot], entry.access, session.gpu().limits())
        } by {
            assert(old(session).fills(request, program.entries[i]));
            let slot = program.entries[i].slot;
            let j = choose|j: int|
                0 <= j < all@.len() && (#[trigger] all@[j]).slot == slot && bound(all@)[slot]
                    == buffer_info(*all@[j].buffer);
            if j < entries@.len() {
                assert(old(session).can_bind_buffer(*entries@[j].buffer));
            }
        }
        assert forall|i: int, j: int|
            #![trigger program.entries[i], program.entries[j]]
            0 <= i < program.entries.len() && 0 <= j < program.entries.len() && i != j
                && program.entries[i].access == Access::Write implies bound(
            all@,
        )[program.entries[i].slot].id != bound(all@)[program.entries[j].slot].id by {
            assert(old(session).fills(request, program.entries[i]));
            assert(old(session).fills(request, program.entries[j]));
            let slot = program.entries[i].slot;
            let k = choose|k: int|
                0 <= k < entries@.len() && (#[trigger] entries@[k]).slot == slot && bound(
                    entries@,
                )[slot] == buffer_info(*entries@[k].buffer);
            assert(old(session).can_bind_buffer(*entries@[k].buffer));
        }
    }
    let layout = get_bind_group_layout(&pipeline);
    let group = create_bind_group(&session.device.gpu, label, &layout, &all);
    let encoder = create_command_encoder(&session.device.gpu, encoder_label);
    let immediates: Option<&[u8]> = if slot.is_none() && size > 0 {
        Some(parameters.as_slice())
    } else {
        None
    };
    let ghost dispatch = session.dispatch_of(program, request);
    assert(dispatch.immediates =~= (match immediates {
        Some(bytes) => bytes@,
        None => Seq::empty(),
    }));
    let recording = record_dispatch(
        &session.device.gpu,
        encoder,
        &pipeline,
        &group,
        immediates,
        (groups.0, groups.1, 1),
    );
    let commands = match recording {
        Ok(commands) => commands,
        Err(error) => return Err(WgpuError::Custom(error_text(&error))),
    };
    proof {
        let command = recorded(commands).commands[0];
        assert(command == Command::Compute(dispatch));
        assert forall|id: nat| #[trigger] command.touches(id) implies session.memory().contains_key(
            id,
        ) && !session.gpu().mapped().contains_key(id) by {
            let slot = choose|slot: u32|
                dispatch.buffers.contains_key(slot) && #[trigger] dispatch.buffers[slot] == id;
            let i = choose|i: int|
                0 <= i < all@.len() && (#[trigger] all@[i]).slot == slot && bound(all@)[slot]
                    == buffer_info(*all@[i].buffer);
            if i < entries@.len() {
                assert(old(session).can_bind_buffer(*entries@[i].buffer));
            }
        }
        if session.parameters is Some {
            let id = session.parameter_id();
            if dispatch.writes(id) {
                let i = choose|i: int| dispatch.writes_at(i, id);
                assert(dispatch.writes_at(i, id));
                let slot = program.entries[i].slot;
                assert(old(session).fills(request, program.entries[i]));
                let j = choose|j: int|
                    0 <= j < entries@.len() && (#[trigger] entries@[j]).slot == slot && bound(
                        entries@,
                    )[slot] == buffer_info(*entries@[j].buffer);
                assert(old(session).can_bind_buffer(*entries@[j].buffer));
            }
        }
    }
    let _receipt = submit(&mut session.device.gpu, commands);
    proof {
        lemma_lengths_kept(passed, *session);
        assert forall|id: nat| #[trigger]
            old(session).memory().contains_key(id) implies session.memory()[id].len() == old(
            session,
        ).memory()[id].len() && (!dispatch.writes(id) && !session.is_parameter(id)
            ==> session.memory()[id] == old(session).memory()[id]) by {
            assert(passed.memory().contains_key(id));
        }
    }
    Ok(())
}

// ── This crate's shaders ─────────────────────────────────────────────────────

/// The request for a dispatch of one of this crate's shaders.
pub open spec fn kernel_request(
    kernel: Kernel,
    key: Key,
    buffers: Map<u32, BufferInfo>,
    words: Seq<u32>,
    groups: (u32, u32),
) -> Request {
    Request {
        key,
        kind: kernel.kind(),
        source: kernel.body(),
        buffers,
        parameters: bytes_of(words),
        groups,
    }
}

impl WgpuSession {
    /// The buffer can be bound to the shader.
    pub open spec fn bindable(self, kernel: Kernel, buffer: wgpu::Buffer) -> bool {
        let info = buffer_info(buffer);
        &&& self.can_bind_buffer(buffer)
        &&& info.usage.storage
        &&& kernel.element_size() <= info.size <= self.device.limits.max_storage_buffer_binding_size
        &&& info.size % 4 == 0
    }

    /// The request was handed over as one for the shader's own program, and nothing but the buffer
    /// of the output and that for parameters may have changed.
    pub open spec fn ran_kernel(
        self,
        before: WgpuSession,
        kernel: Kernel,
        request: Request,
        written: nat,
    ) -> bool {
        &&& self.ran(before, request)
        &&& before.program_for(request) == kernel.program(before.device.features)
        &&& forall|id: nat| #[trigger]
            before.memory().contains_key(id) && id != written && !self.is_parameter(id)
                ==> self.memory()[id] == before.memory()[id]
    }

    /// This is `before` with an output taken from the pool, and with a dispatch of the shader handed
    /// over that writes to it.
    pub open spec fn operated(
        self,
        before: WgpuSession,
        kernel: Kernel,
        request: Request,
        output: wgpu::Buffer,
    ) -> bool {
        let id = buffer_info(output).id;
        let features = before.device.features;
        let n = request.parameters.len();
        let taken = if kept(before.compute_pool@, buffer_info(output).size).len() > 0 {
            before.memory().dom()
        } else {
            before.memory().dom().insert(id)
        };
        &&& self.wf()
        &&& self.carries(before)
        &&& !before.live(id)
        &&& self.handed_out(before, output)
        &&& self.worked(before, kernel, request)
        &&& self.memory().dom() == if falls_back(features, n) && !before.has_parameters(n) {
            taken.insert(self.parameter_id())
        } else {
            taken
        }
    }

    /// A dispatch of the shader was handed over: its pipeline was compiled unless it was kept, its
    /// parameters were passed, and no staging buffer was taken or mapped.
    pub open spec fn worked(self, before: WgpuSession, kernel: Kernel, request: Request) -> bool {
        let features = before.device.features;
        let n = request.parameters.len();
        &&& self.staging_pool == before.staging_pool
        &&& self.gpu().mapped() == before.gpu().mapped()
        &&& self.gpu().dispatched() == before.gpu().dispatched().push(
            self.dispatch_of(kernel.program(features), request),
        )
        &&& (self.device.cache(), self.gpu().compiled()) == looked_up(
            before.device.cache(),
            before.gpu().compiled(),
            request.key,
            newest(
                before.gpu().info().id,
                before.gpu().compiled(),
                kernel.program(features),
            ),
        )
        &&& if falls_back(features, n) {
            &&& self.parameters is Some
            &&& self.memory()[self.parameter_id()].take(n as int) == request.parameters
            &&& before.has_parameters(n) ==> self.parameters == before.parameters
        } else {
            self.parameters == before.parameters
        }
    }

    /// A dispatch that writes to a buffer that was not in use leaves all that was as it was.
    pub proof fn lemma_operated(
        self,
        acquired: WgpuSession,
        before: WgpuSession,
        kernel: Kernel,
        request: Request,
        output: wgpu::Buffer,
    )
        requires
            before.wf(),
            acquired.carries(before),
            acquired.same_work(before),
            acquired.staging_pool == before.staging_pool,
            acquired.gpu().mapped() == before.gpu().mapped(),
            acquired.took_from_pool(before, output),
            acquired.holds(output),
            !before.live(buffer_info(output).id),
            self.wf(),
            self.ran_kernel(acquired, kernel, request, buffer_info(output).id),
        ensures
            self.operated(before, kernel, request, output),
            self.holds(output),
            forall|id: nat| #[trigger] acquired.live(id) ==> self.live(id),
    {
        assert forall|id: nat| #[trigger] acquired.live(id) implies self.live(id) by {}
        assert(acquired.live(buffer_info(output).id));
        assert(self.gpu().info() == before.gpu().info());
    }
}

/// Work of a fixed size allocates nothing once it is warm: where a buffer was given back, the next
/// operation whose output is of its size writes to it, and creates no buffer, as long as it need not
/// make room for parameters.
pub proof fn law_warm_operations_allocate_nothing(
    before: WgpuSession,
    released: WgpuSession,
    after: WgpuSession,
    kernel: Kernel,
    request: Request,
    buffer: wgpu::Buffer,
    output: wgpu::Buffer,
)
    requires
        before.wf(),
        before.holds(buffer),
        kept(before.compute_pool@, buffer_info(buffer).size).len()
            < before.compute_pool.max_per_class(),
        released.compute_pool@ == after_release(
            before.compute_pool@,
            before.compute_pool.max_per_class(),
            buffer,
        ),
        after.operated(released, kernel, request, output),
        buffer_info(output).size == buffer_info(buffer).size,
        released.device.features.immediates || released.has_parameters(request.parameters.len()),
    ensures
        output == buffer,
        after.memory().dom() == released.memory().dom(),
{
    law_released_buffer_is_reused(
        before.compute_pool@,
        before.compute_pool.max_per_class(),
        buffer,
        buffer_info(buffer).size,
    );
}

/// A grid of rows of workgroups is no larger than `invocations` take: no dimension is over the limit of
/// every device, a column less would be too few, and so would a row less of full length.
pub open spec fn tight(dispatch: Dispatch, workgroup: nat, invocations: nat) -> bool {
    let (x, y) = (dispatch.groups.0, dispatch.groups.1);
    &&& x <= 65535 && y <= 65535
    &&& (x - 1) * y * workgroup < invocations
    &&& y > 1 ==> (y - 1) * 65535 * workgroup < invocations
}

/// A grid for as many invocations as a word can count is no larger than they take.
pub(crate) proof fn lemma_grid_is_tight(invocations: nat, workgroup: nat)
    requires
        0 < invocations <= u32::MAX,
        64 <= workgroup <= 256,
    ensures
        ({
            let (x, y) = grid_for(groups_for(invocations, workgroup));
            &&& x <= 65535 && y <= 65535
            &&& (x - 1) * y * workgroup < invocations
            &&& y > 1 ==> (y - 1) * 65535 * workgroup < invocations
        }),
{
    let total = groups_for(invocations, workgroup);
    let (x, y) = grid_for(total);
    lemma_groups_for(invocations, workgroup);
    law_grid_covers_the_row(total, (y - 1) as nat);
    assert(total <= 65535 * 65535) by (nonlinear_arith)
        requires
            total * workgroup < invocations + workgroup,
            invocations <= 0xffff_ffff,
            workgroup >= 64,
    ;
    assert((x - 1) * y * workgroup < invocations) by (nonlinear_arith)
        requires
            x * y < total + y,
            total * workgroup < invocations + workgroup,
            workgroup > 0,
    ;
    if y > 1 {
        assert((y - 1) * 65535 * workgroup < invocations) by (nonlinear_arith)
            requires
                (y - 1) * 65535 < total,
                total * workgroup < invocations + workgroup,
                workgroup > 0,
        ;
    }
}

// ── Reading a dispatch ───────────────────────────────────────────────────────

impl WgpuSession {
    /// The dispatch that was handed over last.
    pub open spec fn handed_over(self) -> Dispatch {
        self.gpu().dispatched().last()
    }

    /// One dispatch was handed over, and none besides it.
    pub open spec fn handed_over_one(self, before: WgpuSession) -> bool {
        &&& self.gpu().dispatched().len() == before.gpu().dispatched().len() + 1
        &&& self.gpu().dispatched().drop_last() == before.gpu().dispatched()
    }

    /// The bytes that a shader finds its parameters in: the immediate data of the dispatch, or else,
    /// where it has none, the buffer that is bound to the last entry of the layout.
    pub open spec fn parameter_bytes(self, dispatch: Dispatch) -> Seq<u8> {
        if dispatch.immediates.len() > 0 {
            dispatch.immediates
        } else {
            self.memory()[dispatch.buffers[dispatch.program.entries.last().slot]]
        }
    }

    /// The field with index `i` of a shader's parameters, all of which are words.
    pub open spec fn parameter(self, dispatch: Dispatch, i: nat) -> u32 {
        word_at(self.parameter_bytes(dispatch), i)
    }

    /// The word with index `i` of the buffer that is bound to a slot.
    pub open spec fn bound_word(self, dispatch: Dispatch, slot: u32, i: nat) -> u32 {
        word_at(self.memory()[dispatch.buffers[slot]], i)
    }
}

/// What the shader finds is what the request says: its words as the fields of the parameters, its
/// buffers in their slots, and its grid.
pub(crate) proof fn lemma_handed_over(
    before: WgpuSession,
    after: WgpuSession,
    kernel: Kernel,
    key: Key,
    buffers: Map<u32, BufferInfo>,
    words: Seq<u32>,
    groups: (u32, u32),
)
    requires
        after.wf(),
        after.device.features == before.device.features,
        after.worked(before, kernel, kernel_request(kernel, key, buffers, words, groups)),
        words.len() * 4 == kernel.immediate_size(),
    ensures
        after.handed_over_one(before),
        ({
            let dispatch = after.handed_over();
            &&& dispatch.program == kernel.program(before.device.features)
            &&& dispatch.groups == (groups.0, groups.1, 1u32)
            &&& forall|slot: u32| #[trigger]
                buffers.contains_key(slot) && slot < kernel.binding_count()
                    ==> dispatch.buffers[slot] == buffers[slot].id
            &&& forall|i: nat|
                i < words.len() ==> #[trigger] after.parameter(dispatch, i) == words[i as int]
            &&& dispatch.immediates.len() == 0 ==> dispatch.program.entries.last().access
                == Access::Uniform
        }),
{
    let request = kernel_request(kernel, key, buffers, words, groups);
    let dispatch = after.handed_over();
    let bytes = bytes_of(words);
    lemma_word_bytes(words);
    kernel.lemma_layout(before.gpu().info());
    assert(after.gpu().dispatched().drop_last() =~= before.gpu().dispatched());
    assert(dispatch == after.dispatch_of(kernel.program(before.device.features), request));
    assert forall|i: nat| i < words.len() implies #[trigger] after.parameter(dispatch, i)
        == words[i as int] by {
        law_words_are_read_back(words, i);
        if after.buffers_parameters(request) {
            let memory = after.memory()[after.parameter_id()];
            assert(dispatch.buffers[request.slot()] == after.parameter_id());
            assert(after.parameter_bytes(dispatch) == memory);
            let n = bytes.len() as int;
            assert(memory.take(n) == bytes);
            assert forall|k: int| 0 <= k < n implies memory[k] == bytes[k] by {
                assert(memory.take(n)[k] == memory[k]);
            }
        }
    }
}

/// The pipeline of a dispatch is kept under the key of its request: where one was, nothing is compiled,
/// and else the program that is handed over is, once.
pub(crate) proof fn lemma_kept_under(
    before: WgpuSession,
    after: WgpuSession,
    kernel: Kernel,
    request: Request,
)
    requires
        after.worked(before, kernel, request),
        before.wf(),
        request.key.shader_name == kernel.kind().name,
    ensures
        ({
            let program = kernel.program(before.device.features);
            &&& after.device.cache().contains_key(request.key)
            &&& after.device.cache()[request.key].program == program
            &&& forall|key: Key|
                key != request.key ==> (#[trigger] after.device.cache().contains_key(key)
                    <==> before.device.cache().contains_key(key))
            &&& after.gpu().compiled() == if before.device.cache().contains_key(request.key) {
                before.gpu().compiled()
            } else {
                before.gpu().compiled().push(program)
            }
        }),
{
    law_names_tell_kernels_apart(kernel, kernel);
    assert(is_kernel_name(request.key.shader_name));
}

/// Dispatches one of this crate's shaders.
#[verifier::spinoff_prover]
fn run(
    session: &mut WgpuSession,
    kernel: Kernel,
    key: PipelineKey,
    source: &str,
    label: &str,
    encoder_label: Option<&str>,
    entries: &Vec<BoundBuffer<'_>>,
    words: &[u32],
    groups: (u32, u32),
)
    requires
        old(session).wf(),
        key@.shader_name == kernel.kind().name,
        source@ == kernel.body(),
        words@.len() * 4 == kernel.immediate_size(),
        kernel.runs_on(old(session).device.limits, old(session).device.features),
        entries@.len() == kernel.binding_count(),
        forall|i: int|
            0 <= i < entries@.len() ==> (#[trigger] entries@[i]).slot == i && old(session).bindable(
                kernel,
                *entries@[i].buffer,
            ),
        forall|i: int|
            0 <= i < entries@.len() - 1 ==> buffer_info(*(#[trigger] entries@[i]).buffer).id
                != buffer_info(*entries@[entries@.len() - 1].buffer).id,
        groups.0 <= old(session).device.limits.max_compute_workgroups_per_dimension,
        groups.1 <= old(session).device.limits.max_compute_workgroups_per_dimension,
        1 <= old(session).device.limits.max_compute_workgroups_per_dimension,
    ensures
        final(session).wf(),
        final(session).ran_kernel(
            *old(session),
            kernel,
            kernel_request(kernel, key@, bound(entries@), words@, groups),
            buffer_info(*entries@[entries@.len() - 1].buffer).id,
        ),
{
    let ghost request = kernel_request(kernel, key@, bound(entries@), words@, groups);
    proof {
        lemma_word_bytes(words@);
        lemma_kernel_request(*session, kernel, request, entries@);
    }
    let outcome = try_run(
        session,
        key,
        kernel.shader_kind(),
        source,
        label,
        encoder_label,
        entries,
        words,
        groups,
    );
    proof {
        assert(outcome is Ok);
        lemma_ran_kernel(*old(session), *session, kernel, request, entries@);
    }
}

/// A request for one of this crate's shaders that was handed over is one for its own program, keeps
/// the pipelines in order, and changes nothing but the last buffer that is bound.
#[verifier::spinoff_prover]
proof fn lemma_ran_kernel(
    before: WgpuSession,
    after: WgpuSession,
    kernel: Kernel,
    request: Request,
    entries: Seq<BoundBuffer<'_>>,
)
    requires
        before.wf(),
        after.sound(),
        after.ran(before, request),
        before.program_for(request) == kernel.program(before.device.features),
        request.kind == kernel.kind(),
        request.key.shader_name == kernel.kind().name,
        request.buffers == bound(entries),
        entries.len() == kernel.binding_count(),
        forall|i: int| 0 <= i < entries.len() ==> (#[trigger] entries[i]).slot == i,
    ensures
        after.wf(),
        after.ran_kernel(
            before,
            kernel,
            request,
            buffer_info(*entries[entries.len() - 1].buffer).id,
        ),
{
    let features = before.device.features;
    let program = kernel.program(features);
    law_names_tell_kernels_apart(kernel, kernel);
    assert forall|k: Key| #[trigger]
        after.device.cache().contains_key(k) && is_kernel_name(
            k.shader_name,
        ) implies after.device.cache()[k].program == kernel_named(k.shader_name).program(features) by {
        if !before.device.cache().contains_key(k) {
            assert(k == request.key);
        }
    }
    let dispatch = after.dispatch_of(program, request);
    let last = entries.len() - 1;
    let written = buffer_info(*entries[last].buffer).id;
    kernel.lemma_layout(before.gpu().info());
    lemma_bound_in_order(entries);
    assert(bound(entries)[last as u32] == buffer_info(*entries[last].buffer));
    let own = layout_of(kernel.kind().bindings);
    assert forall|id: nat| #[trigger]
        before.memory().contains_key(id) && id != written && !after.is_parameter(
            id,
        ) implies after.memory()[id] == before.memory()[id] by {
        if dispatch.writes(id) {
            let i = choose|i: int| dispatch.writes_at(i, id);
            assert(dispatch.writes_at(i, id));
            if i < entries.len() {
                assert(program.entries[i] == own[i]);
            }
            assert(i == last);
            assert(dispatch.buffers[last as u32] == written);
        }
    }
}

/// Two buffers bound to the slots 0 and 1.
proof fn lemma_pair_bound(
    entries: Seq<BoundBuffer<'_>>,
    first: wgpu::Buffer,
    second: wgpu::Buffer,
)
    requires
        entries.len() == 2,
        entries[0].slot == 0 && *entries[0].buffer == first,
        entries[1].slot == 1 && *entries[1].buffer == second,
    ensures
        bound(entries) == map![0u32 => buffer_info(first), 1u32 => buffer_info(second)],
{
    lemma_bound_in_order(entries);
    assert(bound(entries)[0u32] == buffer_info(*entries[0].buffer));
    assert(bound(entries)[1u32] == buffer_info(*entries[1].buffer));
    assert(bound(entries) =~= map![0u32 => buffer_info(first), 1u32 => buffer_info(second)]);
}

/// Buffers bound to the slots 0, 1, 2, ... in order.
proof fn lemma_bound_in_order(entries: Seq<BoundBuffer<'_>>)
    requires
        entries.len() <= u32::MAX,
        forall|i: int| 0 <= i < entries.len() ==> (#[trigger] entries[i]).slot == i,
    ensures
        bound(entries).dom().finite(),
        forall|slot: u32| #[trigger] bound(entries).contains_key(slot) <==> slot < entries.len(),
        forall|i: int|
            0 <= i < entries.len() ==> bound(entries)[i as u32] == buffer_info(
                *(#[trigger] entries[i]).buffer,
            ),
    decreases entries.len(),
{
    if entries.len() > 0 {
        let rest = entries.drop_last();
        assert forall|i: int| 0 <= i < rest.len() implies (#[trigger] rest[i]).slot == i by {
            assert(rest[i] == entries[i]);
        }
        lemma_bound_in_order(rest);
        assert(entries[entries.len() - 1] == entries.last());
        assert forall|i: int| 0 <= i < entries.len() implies bound(entries)[i as u32]
            == buffer_info(*(#[trigger] entries[i]).buffer) by {
            if i < rest.len() {
                assert(rest[i] == entries[i]);
            }
        }
    }
}

/// The session takes and accepts a request for one of this crate's shaders.
#[verifier::spinoff_prover]
proof fn lemma_kernel_request(
    session: WgpuSession,
    kernel: Kernel,
    request: Request,
    entries: Seq<BoundBuffer<'_>>,
)
    requires
        session.wf(),
        kernel.runs_on(session.device.limits, session.device.features),
        request.kind == kernel.kind(),
        request.source == kernel.body(),
        request.key.shader_name == kernel.kind().name,
        request.parameters.len() == kernel.immediate_size(),
        request.buffers == bound(entries),
        entries.len() == kernel.binding_count(),
        forall|i: int|
            0 <= i < entries.len() ==> (#[trigger] entries[i]).slot == i && session.bindable(
                kernel,
                *entries[i].buffer,
            ),
        forall|i: int|
            0 <= i < entries.len() - 1 ==> buffer_info(*(#[trigger] entries[i]).buffer).id
                != buffer_info(*entries[entries.len() - 1].buffer).id,
        request.groups.0 <= session.device.limits.max_compute_workgroups_per_dimension,
        request.groups.1 <= session.device.limits.max_compute_workgroups_per_dimension,
        1 <= session.device.limits.max_compute_workgroups_per_dimension,
    ensures
        session.program_for(request) == kernel.program(session.device.features),
        session.takes(request),
        session.accepts(request),
{
    let info = session.gpu().info();
    let program = kernel.program(info.features);
    let n = request.parameters.len();
    law_names_tell_kernels_apart(kernel, kernel);
    kernel.lemma_layout(info);
    lemma_bound_in_order(entries);
    assert(is_kernel_name(request.key.shader_name));
    assert(session.program_for(request) == program);
    assert(is_own(info, program));
    assert(has_room(info, program));
    lemma_slots(program.entries);
    assert(layout_of(kernel.kind().bindings).len() == entries.len());
    let own = layout_of(kernel.kind().bindings);
    assert forall|i: int| 0 <= i < program.entries.len() implies session.fills(
        request,
        #[trigger] program.entries[i],
    ) by {
        if i < entries.len() {
            assert(program.entries[i] == own[i]);
            assert(session.bindable(kernel, *entries[i].buffer));
            assert(request.buffers[i as u32] == buffer_info(*entries[i].buffer));
        }
    }
    assert forall|slot: u32| #[trigger] request.buffers.contains_key(slot) implies slots(
        program.entries,
    ).contains(slot) by {
        assert(program.entries[slot as int] == own[slot as int]);
    }
    if session.buffers_parameters(request) {
        assert(program.entries[entries.len() as int].slot == request.slot());
        lemma_least_class(n);
    }
    assert forall|i: int, j: int|
        #![trigger program.entries[i], program.entries[j]]
        0 <= i < program.entries.len() && 0 <= j < program.entries.len() && i != j
            && program.entries[i].access == Access::Write && !(session.buffers_parameters(request)
            && program.entries[j].slot == request.slot()) implies request.buffers[program.entries[i].slot].id
        != request.buffers[program.entries[j].slot].id by {
        if i < entries.len() {
            assert(program.entries[i] == own[i]);
        }
        if j < entries.len() {
            assert(program.entries[j] == own[j]);
        }
        assert(i == entries.len() - 1 && j < i);
        assert(request.buffers[i as u32] == buffer_info(*entries[i].buffer));
        assert(request.buffers[j as u32] == buffer_info(*entries[j].buffer));
    }
    let sizes = session.sizes_for(request);
    assert forall|slot: u32| #[trigger] sizes.contains_key(slot) implies sizes[slot]
        >= kernel.element_size() && (slot == kernel.binding_count() ==> sizes[slot]
        >= kernel.immediate_size()) by {
        if slot < entries.len() {
            assert(session.bindable(kernel, *entries[slot as int].buffer));
        }
    }
    assert(holds_elements(info, program, sizes));
}

/// The class of a few bytes is the smallest.
proof fn lemma_least_class(n: nat)
    requires
        n <= MIN_CLASS,
    ensures
        size_class(n) == MIN_CLASS,
{
}

// ── Any shader ───────────────────────────────────────────────────────────────

/// The request of a dispatch with one input and one output: the input is bound to slot 0 and the
/// output to slot 1, and the grid is the smallest that covers the size.
pub open spec fn request_1in_1out<I: Immediates>(
    shader_kind: Kind,
    shader_source: Seq<char>,
    in_buffer: wgpu::Buffer,
    out_buffer: wgpu::Buffer,
    immediates: I,
    dispatch_size: (u32, u32),
    workgroup_size: (u8, u8),
    pixel_bytes: u8,
    channels: u8,
) -> Request {
    Request {
        key: Key {
            shader_name: shader_kind.name,
            pixel_bytes,
            channels,
            wg_x: workgroup_size.0,
            wg_y: workgroup_size.1,
            variant: 0,
        },
        kind: shader_kind,
        source: shader_source,
        buffers: map![0u32 => buffer_info(in_buffer), 1u32 => buffer_info(out_buffer)],
        parameters: bytes_of(immediates.words()),
        groups: (
            groups_for(dispatch_size.0 as nat, workgroup_size.0 as nat) as u32,
            groups_for(dispatch_size.1 as nat, workgroup_size.1 as nat) as u32,
        ),
    }
}

/// A generic dispatcher for operations that take 1 input buffer and write to 1 output buffer, with
/// any shader; or else says that the device does not take the shader, or that the buffers are too
/// small for it.
#[verifier::spinoff_prover]
pub fn try_compute_1in_1out<I: Immediates>(
    session: &mut WgpuSession,
    shader_kind: ShaderKind,
    shader_source: &str,
    in_buffer: &wgpu::Buffer,
    out_buffer: &wgpu::Buffer,
    immediates: &I,
    dispatch_size: (u32, u32),
    workgroup_size: (u8, u8),
    pixel_bytes: u8,
    channels: u8,
) -> (outcome: Result<(), WgpuError>)
    requires
        old(session).sound(),
        workgroup_size.0 > 0,
        workgroup_size.1 > 0,
        old(session).can_bind_buffer(*in_buffer),
        old(session).can_bind_buffer(*out_buffer),
        old(session).takes(
            request_1in_1out(
                shader_kind@,
                shader_source@,
                *in_buffer,
                *out_buffer,
                *immediates,
                dispatch_size,
                workgroup_size,
                pixel_bytes,
                channels,
            ),
        ),
    ensures
        final(session).sound(),
        ({
            let request = request_1in_1out(
                shader_kind@,
                shader_source@,
                *in_buffer,
                *out_buffer,
                *immediates,
                dispatch_size,
                workgroup_size,
                pixel_bytes,
                channels,
            );
            &&& outcome is Ok <==> old(session).accepts(request)
            &&& old(session).wf() && !is_kernel_name(shader_kind@.name) ==> final(session).wf()
            &&& forall|id: nat| #[trigger] old(session).live(id) ==> final(session).live(id)
            &&& match outcome {
                Ok(_) => final(session).ran(*old(session), request),
                Err(error) => {
                    &&& error is ShaderCompilation || error is Custom
                    &&& final(session).same_pools(*old(session))
                    &&& final(session).gpu().dispatched() == old(session).gpu().dispatched()
                    &&& error matches WgpuError::ShaderCompilation { shader, .. } ==> {
                        &&& shader@ == shader_kind@.name
                        &&& final(session).memory() == old(session).memory()
                        &&& final(session).parameters == old(session).parameters
                        &&& final(session).device.cache() == old(session).device.cache()
                        &&& final(session).gpu().compiled() == old(session).gpu().compiled()
                    }
                    &&& error is Custom ==> final(session).found_pipeline(*old(session), request)
                        && final(session).parametrized(*old(session), request.parameters)
                },
            }
        }),
{
    let key = PipelineKey::from_kind(
        &shader_kind,
        pixel_bytes,
        channels,
        workgroup_size.0,
        workgroup_size.1,
        0,
    );
    let words: Vec<u32> = immediates.to_words();
    let mut entries: Vec<BoundBuffer<'_>> = Vec::new();
    entries.push(BoundBuffer { slot: 0, buffer: in_buffer });
    entries.push(BoundBuffer { slot: 1, buffer: out_buffer });
    proof {
        lemma_pair_bound(entries@, *in_buffer, *out_buffer);
    }
    let wg_x: u32 = div_ceil(dispatch_size.0, workgroup_size.0 as u32);
    let wg_y: u32 = div_ceil(dispatch_size.1, workgroup_size.1 as u32);
    let ghost name = shader_kind@.name;
    let outcome = try_run(
        session,
        key,
        shader_kind,
        shader_source,
        "1in_1out Bind Group",
        None,
        &entries,
        words.as_slice(),
        (wg_x, wg_y),
    );
    proof {
        if old(session).wf() && !is_kernel_name(name) {
            lemma_other_name(*old(session), *session, name);
        }
    }
    outcome
}

/// Keeping one more pipeline, under a name that none of this crate's shaders has, leaves those of
/// this crate in order.
proof fn lemma_other_name(before: WgpuSession, after: WgpuSession, name: Seq<char>)
    requires
        before.keeps_own(),
        !is_kernel_name(name),
        after.device.features == before.device.features,
        forall|k: Key| #[trigger]
            after.device.cache().contains_key(k) && k.shader_name != name
                ==> before.device.cache().contains_key(k) && after.device.cache()[k]
                == before.device.cache()[k],
    ensures
        after.keeps_own(),
{
    assert forall|k: Key| #[trigger]
        after.device.cache().contains_key(k) && is_kernel_name(
            k.shader_name,
        ) implies after.device.cache()[k].program == kernel_named(k.shader_name).program(
        after.device.features,
    ) by {
        assert(before.device.cache().contains_key(k));
    }
}

/// Dispatches one of this crate's shaders that read one buffer and write another.
#[verifier::spinoff_prover]
fn run_1in_1out<I: Immediates>(
    session: &mut WgpuSession,
    kernel: Kernel,
    source: &str,
    in_buffer: &wgpu::Buffer,
    out_buffer: &wgpu::Buffer,
    immediates: &I,
    dispatch_size: (u32, u32),
    workgroup_size: (u8, u8),
    pixel_bytes: u8,
    channels: u8,
)
    requires
        old(session).wf(),
        source@ == kernel.body(),
        kernel.binding_count() == 2,
        immediates.words().len() * 4 == kernel.immediate_size(),
        kernel.runs_on(old(session).device.limits, old(session).device.features),
        old(session).bindable(kernel, *in_buffer),
        old(session).bindable(kernel, *out_buffer),
        buffer_info(*in_buffer).id != buffer_info(*out_buffer).id,
        workgroup_size.0 > 0,
        workgroup_size.1 > 0,
        groups_for(dispatch_size.0 as nat, workgroup_size.0 as nat) <= old(
            session,
        ).device.limits.max_compute_workgroups_per_dimension,
        groups_for(dispatch_size.1 as nat, workgroup_size.1 as nat) <= old(
            session,
        ).device.limits.max_compute_workgroups_per_dimension,
        1 <= old(session).device.limits.max_compute_workgroups_per_dimension,
    ensures
        final(session).wf(),
        final(session).ran_kernel(
            *old(session),
            kernel,
            request_1in_1out(
                kernel.kind(),
                kernel.body(),
                *in_buffer,
                *out_buffer,
                *immediates,
                dispatch_size,
                workgroup_size,
                pixel_bytes,
                channels,
            ),
            buffer_info(*out_buffer).id,
        ),
{
    let ghost request = request_1in_1out(
        kernel.kind(),
        kernel.body(),
        *in_buffer,
        *out_buffer,
        *immediates,
        dispatch_size,
        workgroup_size,
        pixel_bytes,
        channels,
    );
    let ghost entries = seq![
        BoundBuffer { slot: 0, buffer: in_buffer },
        BoundBuffer { slot: 1, buffer: out_buffer },
    ];
    proof {
        lemma_word_bytes(immediates.words());
        lemma_pair_bound(entries, *in_buffer, *out_buffer);
        lemma_kernel_request(*session, kernel, request, entries);
    }
    compute_1in_1out(
        session,
        kernel.shader_kind(),
        source,
        in_buffer,
        out_buffer,
        immediates,
        dispatch_size,
        workgroup_size,
        pixel_bytes,
        channels,
    );
    proof {
        lemma_ran_kernel(*old(session), *session, kernel, request, entries);
    }
}

/// A generic dispatcher for operations that take 1 input buffer and write to 1 output buffer.
pub fn compute_1in_1out<I: Immediates>(
    session: &mut WgpuSession,
    shader_kind: ShaderKind,
    shader_source: &str,
    in_buffer: &wgpu::Buffer,
    out_buffer: &wgpu::Buffer,
    immediates: &I,
    dispatch_size: (u32, u32),
    workgroup_size: (u8, u8),
    pixel_bytes: u8,
    channels: u8,
)
    requires
        old(session).sound(),
        workgroup_size.0 > 0,
        workgroup_size.1 > 0,
        old(session).can_bind_buffer(*in_buffer),
        old(session).can_bind_buffer(*out_buffer),
        ({
            let request = request_1in_1out(
                shader_kind@,
                shader_source@,
                *in_buffer,
                *out_buffer,
                *immediates,
                dispatch_size,
                workgroup_size,
                pixel_bytes,
                channels,
            );
            old(session).takes(request) && old(session).accepts(request)
        }),
    ensures
        final(session).sound(),
        old(session).wf() && !is_kernel_name(shader_kind@.name) ==> final(session).wf(),
        forall|id: nat| #[trigger] old(session).live(id) ==> final(session).live(id),
        final(session).ran(
            *old(session),
            request_1in_1out(
                shader_kind@,
                shader_source@,
                *in_buffer,
                *out_buffer,
                *immediates,
                dispatch_size,
                workgroup_size,
                pixel_bytes,
                channels,
            ),
        ),
{
    let outcome = try_compute_1in_1out(
        session,
        shader_kind,
        shader_source,
        in_buffer,
        out_buffer,
        immediates,
        dispatch_size,
        workgroup_size,
        pixel_bytes,
        channels,
    );
    assert(outcome is Ok);
}

/// A dispatch with one input and one output has the input in slot 0 and the output in slot 1, hands its
/// immediate data over word by word, and has an invocation for each place of the size it is for, with
/// less than a workgroup too many in either dimension. Its pipeline is kept by the name of the shader,
/// the kind of pixels and the size of a workgroup, and compiled only where none is kept.
#[verifier::spinoff_prover]
pub proof fn law_1in_1out_covers_the_size<I: Immediates>(
    before: WgpuSession,
    after: WgpuSession,
    shader_kind: Kind,
    shader_source: Seq<char>,
    in_buffer: wgpu::Buffer,
    out_buffer: wgpu::Buffer,
    immediates: I,
    dispatch_size: (u32, u32),
    workgroup_size: (u8, u8),
    pixel_bytes: u8,
    channels: u8,
    i: nat,
)
    requires
        workgroup_size.0 > 0,
        workgroup_size.1 > 0,
        before.takes(
            request_1in_1out(
                shader_kind,
                shader_source,
                in_buffer,
                out_buffer,
                immediates,
                dispatch_size,
                workgroup_size,
                pixel_bytes,
                channels,
            ),
        ),
        after.sound(),
        after.ran(
            before,
            request_1in_1out(
                shader_kind,
                shader_source,
                in_buffer,
                out_buffer,
                immediates,
                dispatch_size,
                workgroup_size,
                pixel_bytes,
                channels,
            ),
        ),
    ensures
        after.handed_over_one(before),
        ({
            let dispatch = after.handed_over();
            let words = immediates.words();
            let (wg_x, wg_y) = (workgroup_size.0, workgroup_size.1);
            let key = Key {
                shader_name: shader_kind.name,
                pixel_bytes,
                channels,
                wg_x,
                wg_y,
                variant: 0,
            };
            &&& dispatch.buffers[0] == buffer_info(in_buffer).id
            &&& dispatch.buffers[1] == buffer_info(out_buffer).id
            &&& dispatch_size.0 <= dispatch.groups.0 * wg_x < dispatch_size.0 + wg_x
            &&& dispatch_size.1 <= dispatch.groups.1 * wg_y < dispatch_size.1 + wg_y
            &&& dispatch.groups.2 == 1
            &&& i < words.len() ==> words[i as int] == if before.device.features.immediates {
                word_at(dispatch.immediates, i)
            } else {
                after.bound_word(dispatch, next_slot(shader_kind.bindings) as u32, i)
            }
            &&& after.device.cache().contains_key(key)
            &&& after.device.cache()[key].program == dispatch.program
            &&& before.device.cache().contains_key(key) ==> after.gpu().compiled()
                == before.gpu().compiled()
            &&& !before.device.cache().contains_key(key) ==> after.gpu().compiled()
                == before.gpu().compiled().push(dispatch.program)
        }),
{
    let request = request_1in_1out(
        shader_kind,
        shader_source,
        in_buffer,
        out_buffer,
        immediates,
        dispatch_size,
        workgroup_size,
        pixel_bytes,
        channels,
    );
    let dispatch = after.handed_over();
    let words = immediates.words();
    let bytes = bytes_of(words);
    lemma_groups_for(dispatch_size.0 as nat, workgroup_size.0 as nat);
    lemma_groups_for(dispatch_size.1 as nat, workgroup_size.1 as nat);
    lemma_word_bytes(words);
    assert(after.gpu().dispatched().drop_last() =~= before.gpu().dispatched());
    assert(dispatch == after.dispatch_of(before.program_for(request), request));
    assert(request.buffers.contains_key(0) && request.buffers.contains_key(1));
    assert(after.all_bound(request).contains_key(0) && after.all_bound(request).contains_key(1));
    if after.buffers_parameters(request) {
        assert(request.slot() != 0 && request.slot() != 1);
    }
    if i < words.len() {
        law_words_are_read_back(words, i);
        if after.buffers_parameters(request) {
            let memory = after.memory()[after.parameter_id()];
            assert(dispatch.buffers[request.slot()] == after.parameter_id());
            let n = bytes.len() as int;
            assert(memory.take(n) == bytes);
            lemma_class_covers(bytes.len());
            assert(memory.len() >= n);
            assert forall|k: int| 0 <= k < n implies memory[k] == bytes[k] by {
                assert(memory.take(n)[k] == memory[k]);
            }
        }
    }
}

} // verus!
