//! What can go wrong.
use vstd::prelude::*;

use crate::bytes::F32;
use crate::gpu::Backends;

verus! {

/// An error of this crate.
#[derive(Debug)]
pub enum WgpuError {
    /// No suitable GPU adapter was found on the backends that were asked for.
    NoAdapter(Option<Backends>),
    /// The device could not be opened.
    DeviceCreation(wgpu::RequestDeviceError),
    /// A buffer could not be mapped.
    MapFailed(wgpu::BufferAsyncError),
    /// The pixels do not make an image of the size.
    ImageError(String),
    /// A number of bytes is not the one that is needed.
    SizeMismatch { expected: usize, got: usize },
    /// The pixel type is not supported.
    UnsupportedPixelType(&'static str),
    /// A kernel size has to be odd and at least 1.
    InvalidKernelSize(usize),
    /// A sigma has to be greater than 0.
    InvalidSigma(F32),
    /// A shader did not compile.
    ShaderCompilation { shader: String, msg: String },
    /// Memory of the GPU was to be read as memory of the CPU.
    CpuAccessOnGpuBuffer,
    /// Any other error of a dispatch.
    Custom(String),
}

} // verus!
