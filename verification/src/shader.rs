//! Shaders: what they bind, how their text is put together, and the key their pipeline is kept by.
use vstd::prelude::*;
use vstd::string::*;

use crate::gpu::{Access, DeviceFeatures, LayoutEntry, Program};
use crate::text::{decimal, decimal_text, replace_first, replaced, same_text};

verus! {

// ── Binding description ──────────────────────────────────────────────────────

/// How a shader uses a bound buffer.
#[derive(Clone, Copy, Debug, PartialEq, Eq, Structural)]
pub enum BindingRole {
    ReadBuffer,
    WriteBuffer,
}

/// One storage buffer that a shader binds.
#[derive(Clone, Copy, Debug)]
pub struct BindingDesc {
    pub slot: u32,
    pub role: BindingRole,
    pub wgsl_type: &'static str,
    pub name: &'static str,
}

/// A [`BindingDesc`] with its texts as sequences of characters.
#[verifier::ext_equal]
pub struct Binding {
    pub slot: u32,
    pub role: BindingRole,
    pub wgsl_type: Seq<char>,
    pub name: Seq<char>,
}

impl View for BindingDesc {
    type V = Binding;

    open spec fn view(&self) -> Binding {
        Binding {
            slot: self.slot,
            role: self.role,
            wgsl_type: self.wgsl_type@,
            name: self.name@,
        }
    }
}

/// Identifies a compiled pipeline and carries its binding layout.
#[derive(Debug)]
pub struct ShaderKind {
    /// Unique name used as the cache key and debug label.
    pub name: &'static str,
    bindings: Vec<BindingDesc>,
}

/// A [`ShaderKind`] with its texts as sequences of characters.
#[verifier::ext_equal]
pub struct Kind {
    pub name: Seq<char>,
    pub bindings: Seq<Binding>,
}

impl View for ShaderKind {
    type V = Kind;

    closed spec fn view(&self) -> Kind {
        Kind { name: self.name@, bindings: self.bindings@.map_values(|b: BindingDesc| b@) }
    }
}

impl ShaderKind {
    /// A shader of the given name that binds the given buffers.
    pub fn new(name: &'static str, bindings: Vec<BindingDesc>) -> (kind: Self)
        ensures
            kind@.name == name@,
            kind@.bindings == bindings@.map_values(|b: BindingDesc| b@),
    {
        ShaderKind { name, bindings }
    }

    /// The buffers the shader binds.
    pub fn bindings(&self) -> (bindings: &Vec<BindingDesc>)
        ensures
            bindings@.map_values(|b: BindingDesc| b@) == self@.bindings,
    {
        &self.bindings
    }

    /// The name of the shader.
    pub fn name(&self) -> (name: &'static str)
        ensures
            name@ == self@.name,
    {
        self.name
    }
}

/// Two kinds are equal when their names are: the bindings are derived from the name.
impl PartialEq for ShaderKind {
    fn eq(&self, other: &Self) -> (same: bool) {
        same_text(self.name, other.name)
    }
}

impl vstd::std_specs::cmp::PartialEqSpecImpl for ShaderKind {
    open spec fn obeys_eq_spec() -> bool {
        true
    }

    open spec fn eq_spec(&self, other: &Self) -> bool {
        self@.name == other@.name
    }
}

impl Eq for ShaderKind {

}

/// `Hash::hash` of std on a text: what it makes of the state is left open.
pub assume_specification<H: std::hash::Hasher>[ <str as std::hash::Hash>::hash::<H> ](
    text: &str,
    state: &mut H,
);

/// Kinds that are equal hash alike: the name is all that counts.
impl std::hash::Hash for ShaderKind {
    fn hash<H: std::hash::Hasher>(&self, state: &mut H) {
        self.name.hash(state)
    }
}

// ── Pipeline cache key ───────────────────────────────────────────────────────

/// What a compiled pipeline is kept by.
#[derive(Clone, Copy, Debug, Hash)]
pub struct PipelineKey {
    pub shader_name: &'static str,
    pub pixel_bytes: u8,
    pub channels: u8,
    pub wg_x: u8,
    pub wg_y: u8,
    pub variant: u32,
}

/// A [`PipelineKey`] with its name as a sequence of characters.
#[verifier::ext_equal]
pub struct Key {
    pub shader_name: Seq<char>,
    pub pixel_bytes: u8,
    pub channels: u8,
    pub wg_x: u8,
    pub wg_y: u8,
    pub variant: u32,
}

impl View for PipelineKey {
    type V = Key;

    open spec fn view(&self) -> Key {
        Key {
            shader_name: self.shader_name@,
            pixel_bytes: self.pixel_bytes,
            channels: self.channels,
            wg_x: self.wg_x,
            wg_y: self.wg_y,
            variant: self.variant,
        }
    }
}

impl PipelineKey {
    /// The key of a shader of the given kind.
    pub fn from_kind(
        kind: &ShaderKind,
        pixel_bytes: u8,
        channels: u8,
        wg_x: u8,
        wg_y: u8,
        variant: u32,
    ) -> (key: Self)
        ensures
            key@ == (Key { shader_name: kind@.name, pixel_bytes, channels, wg_x, wg_y, variant }),
    {
        PipelineKey { shader_name: kind.name(), pixel_bytes, channels, wg_x, wg_y, variant }
    }
}

impl PartialEq for PipelineKey {
    fn eq(&self, other: &Self) -> (same: bool) {
        same_text(self.shader_name, other.shader_name) && self.pixel_bytes == other.pixel_bytes
            && self.channels == other.channels && self.wg_x == other.wg_x && self.wg_y
            == other.wg_y && self.variant == other.variant
    }
}

impl vstd::std_specs::cmp::PartialEqSpecImpl for PipelineKey {
    open spec fn obeys_eq_spec() -> bool {
        true
    }

    open spec fn eq_spec(&self, other: &Self) -> bool {
        self@ == other@
    }
}

impl Eq for PipelineKey {

}

// ── Shader text ──────────────────────────────────────────────────────────────

/// The access mode of a storage buffer in WGSL.
pub open spec fn access(role: BindingRole) -> Seq<char> {
    match role {
        BindingRole::ReadBuffer => "read"@,
        BindingRole::WriteBuffer => "read_write"@,
    }
}

/// `@group(0) @binding(N) var<storage, access> name: type;` and a line break.
pub open spec fn declaration(b: Binding) -> Seq<char> {
    "@group(0) @binding("@ + decimal(b.slot as nat) + ") var<storage, "@ + access(b.role) + "> "@ + b.name
        + ": "@ + b.wgsl_type + ";\n"@
}

/// The declarations of the bindings, in order.
pub open spec fn declarations(bindings: Seq<Binding>) -> Seq<char>
    decreases bindings.len(),
{
    if bindings.len() == 0 {
        Seq::empty()
    } else {
        declarations(bindings.drop_last()) + declaration(bindings.last())
    }
}

/// A shader's text with the declarations of its bindings in front, and an empty line between.
pub open spec fn with_declarations(bindings: Seq<Binding>, source: Seq<char>) -> Seq<char> {
    declarations(bindings) + "\n"@ + source
}

/// The declaration of a binding.
fn declare(b: &BindingDesc) -> (text: String)
    ensures
        text@ == declaration(b@),
{
    let mut text = "@group(0) @binding(".to_owned();
    text.append(decimal_text(b.slot as u64).as_str());
    text.append(") var<storage, ");
    match b.role {
        BindingRole::ReadBuffer => text.append("read"),
        BindingRole::WriteBuffer => text.append("read_write"),
    }
    text.append("> ");
    text.append(b.name);
    text.append(": ");
    text.append(b.wgsl_type);
    text.append(";\n");
    text
}

/// `Debug` of std on a text, by `format!`: the text in quotes, with what has to be escaped. It is for
/// people to read in a label, and nothing is claimed of it.
#[verifier::external_body]
pub(crate) fn debug_text(text: &str) -> (quoted: String) {
    format!("{text:?}")
}

// ── Programs ─────────────────────────────────────────────────────────────────

/// The layout entry of a binding.
pub open spec fn entry_of(b: Binding) -> LayoutEntry {
    LayoutEntry {
        slot: b.slot,
        access: match b.role {
            BindingRole::ReadBuffer => Access::Read,
            BindingRole::WriteBuffer => Access::Write,
        },
    }
}

/// The layout entries of the bindings, one for each and in order.
pub open spec fn layout_of(bindings: Seq<Binding>) -> Seq<LayoutEntry> {
    bindings.map_values(|b: Binding| entry_of(b))
}

/// The first slot behind those of the bindings.
pub open spec fn next_slot(bindings: Seq<Binding>) -> nat
    decreases bindings.len(),
{
    if bindings.len() == 0 {
        0
    } else {
        let before = next_slot(bindings.drop_last());
        let slot = bindings.last().slot as nat;
        if slot < before {
            before
        } else {
            slot + 1
        }
    }
}

/// A shader's parameters are declared as immediate data.
pub const IMMEDIATE_DECLARATION: &'static str = "var<immediate>";

/// The declaration that takes the place of [`IMMEDIATE_DECLARATION`] where a device has no immediate
/// data.
pub open spec fn uniform_declaration(slot: nat) -> Seq<char> {
    "@group(0) @binding("@ + decimal(slot) + ") var<uniform>"@
}

/// Parameters of that many bytes are passed in a uniform buffer: there are some, and the device has
/// no immediate data.
pub open spec fn falls_back(features: DeviceFeatures, immediate_size: nat) -> bool {
    !features.immediates && immediate_size > 0
}

/// What the pipeline of a shader is built from. On a device with immediate data it is the text as
/// it stands; on one without, the parameters are a uniform buffer behind the other bindings.
pub open spec fn program_of(
    kind: Kind,
    source: Seq<char>,
    immediate_size: u32,
    features: DeviceFeatures,
) -> Program {
    if falls_back(features, immediate_size as nat) {
        let slot = next_slot(kind.bindings);
        Program {
            source: replaced(source, IMMEDIATE_DECLARATION@, uniform_declaration(slot)),
            entries: layout_of(kind.bindings).push(
                LayoutEntry { slot: slot as u32, access: Access::Uniform },
            ),
            immediate_size: 0,
        }
    } else {
        Program { source, entries: layout_of(kind.bindings), immediate_size }
    }
}

impl ShaderKind {
    /// The layout entries of the bindings.
    pub fn layout(&self) -> (entries: Vec<LayoutEntry>)
        ensures
            entries@ == layout_of(self@.bindings),
    {
        let bindings = self.bindings();
        let ghost views = self@.bindings;
        let mut entries: Vec<LayoutEntry> = Vec::new();
        for i in 0..bindings.len()
            invariant
                views == bindings@.map_values(|b: BindingDesc| b@),
                entries@.len() == i,
                forall|j: int| 0 <= j < i ==> #[trigger] entries@[j] == entry_of(views[j]),
        {
            let binding: &BindingDesc = &bindings[i];
            assert(views[i as int] == binding@);
            let access = match binding.role {
                BindingRole::ReadBuffer => Access::Read,
                BindingRole::WriteBuffer => Access::Write,
            };
            entries.push(LayoutEntry { slot: binding.slot, access });
        }
        assert(entries@ =~= layout_of(views));
        entries
    }

    /// The first slot behind those of the bindings, where there is one.
    pub fn free_slot(&self) -> (slot: Option<u32>)
        ensures
            match slot {
                Some(slot) => slot == next_slot(self@.bindings),
                None => next_slot(self@.bindings) > u32::MAX,
            },
    {
        let bindings = self.bindings();
        let ghost views = self@.bindings;
        let mut next: u64 = 0;
        for i in 0..bindings.len()
            invariant
                views == bindings@.map_values(|b: BindingDesc| b@),
                next == next_slot(views.take(i as int)),
                next <= u32::MAX + 1,
        {
            assert(views.take(i + 1).drop_last() =~= views.take(i as int));
            assert(views.take(i + 1).last() == bindings@[i as int]@);
            let slot: u64 = bindings[i].slot as u64;
            if slot >= next {
                next = slot + 1;
            }
        }
        assert(views.take(views.len() as int) =~= views);
        if next <= u32::MAX as u64 {
            Some(next as u32)
        } else {
            None
        }
    }
}

/// The text of a shader with its parameters in a uniform buffer.
pub fn with_uniform(source: &str, slot: u32) -> (text: String)
    ensures
        text@ == replaced(source@, IMMEDIATE_DECLARATION@, uniform_declaration(slot as nat)),
{
    let mut declaration = "@group(0) @binding(".to_owned();
    declaration.append(decimal_text(slot as u64).as_str());
    declaration.append(") var<uniform>");
    replace_first(source, IMMEDIATE_DECLARATION, declaration.as_str())
}

/// A shader to be compiled.
pub struct WgslShader {
    pub kind: ShaderKind,
    pub source: String,
}

impl WgslShader {
    /// Prepends `@group(0) @binding(N) var<storage, access> name: type;`
    /// declarations derived from the kind's binding list.
    pub fn build(&mut self)
        ensures
            final(self).kind == old(self).kind,
            final(self).source@ == with_declarations(old(self).kind@.bindings, old(self).source@),
    {
        let mut text = String::new();
        let bindings = self.kind.bindings();
        let ghost views = self.kind@.bindings;
        for i in 0..bindings.len()
            invariant
                views == bindings@.map_values(|b: BindingDesc| b@),
                text@ == declarations(views.take(i as int)),
        {
            text.append(declare(&bindings[i]).as_str());
            assert(views.take(i + 1).drop_last() =~= views.take(i as int));
            assert(views.take(i + 1).last() == bindings@[i as int]@);
        }
        assert(views.take(views.len() as int) =~= views);
        text.append("\n");
        text.append(self.source.as_str());
        self.source = text;
    }
}

/// The slot behind the bindings is none of theirs, and it is the first such: one more than the largest,
/// or zero where there is none.
pub proof fn law_next_slot_is_the_first_free(bindings: Seq<Binding>)
    ensures
        forall|i: int|
            0 <= i < bindings.len() ==> (#[trigger] bindings[i]).slot < next_slot(bindings),
        bindings.len() == 0 ==> next_slot(bindings) == 0,
        bindings.len() > 0 ==> exists|i: int|
            0 <= i < bindings.len() && (#[trigger] bindings[i]).slot + 1 == next_slot(bindings),
    decreases bindings.len(),
{
    if bindings.len() > 0 {
        let rest = bindings.drop_last();
        law_next_slot_is_the_first_free(rest);
        assert forall|i: int| 0 <= i < bindings.len() implies (#[trigger] bindings[i]).slot
            < next_slot(bindings) by {
            if i < rest.len() {
                assert(rest[i] == bindings[i]);
            }
        }
        if bindings.last().slot < next_slot(rest) {
            let i = choose|i: int|
                0 <= i < rest.len() && (#[trigger] rest[i]).slot + 1 == next_slot(rest);
            assert(rest[i] == bindings[i]);
        } else {
            assert(bindings[bindings.len() - 1] == bindings.last());
        }
    }
}

/// A binding is laid out in its own slot, and what the shader only reads is bound for reading only.
pub proof fn law_layout_follows_the_bindings(bindings: Seq<Binding>, i: int)
    requires
        0 <= i < bindings.len(),
    ensures
        layout_of(bindings).len() == bindings.len(),
        layout_of(bindings)[i].slot == bindings[i].slot,
        layout_of(bindings)[i].access == Access::Read <==> bindings[i].role == BindingRole::ReadBuffer,
        layout_of(bindings)[i].access == Access::Write <==> bindings[i].role
            == BindingRole::WriteBuffer,
{
}

} // verus!
