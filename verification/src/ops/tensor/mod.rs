//! Operations on tensors.
pub mod elementwise;

use vstd::prelude::*;

use crate::bytes::{F32, Plain};

verus! {

/// A trait for tensor element types that can be processed on the GPU.
pub trait GpuElement: Plain {
    /// The WGSL type corresponding to this element type.
    const WGSL_TYPE: &'static str;

    /// The size of this element type in bytes.
    const BYTE_SIZE: usize;

    /// The size is that of the element's bytes, and it is one word.
    proof fn lemma_size()
        ensures
            Self::BYTE_SIZE == Self::BYTES,
            Self::BYTE_SIZE == 4,
    ;
}

impl GpuElement for F32 {
    const WGSL_TYPE: &'static str = "f32";

    const BYTE_SIZE: usize = 4;

    proof fn lemma_size() {
        (F32 { bits: 0 }).lemma_len();
    }
}

impl GpuElement for u32 {
    const WGSL_TYPE: &'static str = "u32";

    const BYTE_SIZE: usize = 4;

    proof fn lemma_size() {
        0u32.lemma_len();
    }
}

impl GpuElement for i32 {
    const WGSL_TYPE: &'static str = "i32";

    const BYTE_SIZE: usize = 4;

    proof fn lemma_size() {
        0i32.lemma_len();
    }
}

} // verus!
