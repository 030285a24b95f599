//! Pixel types.
use vstd::prelude::*;

use crate::bytes::{F32, Plain};

verus! {

/// Pixel types that can be processed on the GPU.
pub trait GpuPixel: Plain {
    /// The WGSL type that a shader sees the pixels as.
    const WGSL_TYPE: &'static str;

    /// The size of a pixel component in bytes.
    const BYTE_SIZE: usize;

    /// The number of pixel components in one 32-bit word of a shader.
    const PACK_FACTOR: usize;

    /// The size is that of the component's bytes, and the components that are packed together fill
    /// a word.
    proof fn lemma_packing()
        ensures
            Self::BYTE_SIZE == Self::BYTES,
            Self::PACK_FACTOR * Self::BYTE_SIZE == 4,
    ;
}

impl GpuPixel for u8 {
    const WGSL_TYPE: &'static str = "u32";

    const BYTE_SIZE: usize = 1;

    const PACK_FACTOR: usize = 4;

    proof fn lemma_packing() {
        0u8.lemma_len();
    }
}

impl GpuPixel for u16 {
    const WGSL_TYPE: &'static str = "u32";

    const BYTE_SIZE: usize = 2;

    const PACK_FACTOR: usize = 2;

    proof fn lemma_packing() {
        0u16.lemma_len();
    }
}

impl GpuPixel for F32 {
    const WGSL_TYPE: &'static str = "f32";

    const BYTE_SIZE: usize = 4;

    const PACK_FACTOR: usize = 1;

    proof fn lemma_packing() {
        (F32 { bits: 0 }).lemma_len();
    }
}

} // verus!
