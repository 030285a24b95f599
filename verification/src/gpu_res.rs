//! Images and tensors in the memory of the GPU.
use core::marker::PhantomData;

use vstd::prelude::*;

use crate::allocator::WgpuAllocator;
use crate::host::ImageSize;

verus! {

/// A GPU-resident image.
///
/// It exposes no CPU slice methods: the only way to get pixel data out is
/// [`image_to_cpu`](crate::transfer::image_to_cpu).
pub struct GpuImage<T, const C: usize> {
    shape: [usize; 3],
    strides: [usize; 3],
    len: usize,
    alloc: WgpuAllocator,
    pixel: PhantomData<T>,
}

impl<T, const C: usize> GpuImage<T, C> {
    /// The size of the image.
    pub closed spec fn dims(self) -> ImageSize {
        ImageSize { width: self.shape@[1], height: self.shape@[0] }
    }

    /// The numbers of rows, columns and channels.
    pub closed spec fn extents(self) -> Seq<usize> {
        self.shape@
    }

    /// How far apart neighbours in a column, in a row and within a pixel are.
    pub closed spec fn steps(self) -> Seq<usize> {
        self.strides@
    }

    /// The number of bytes of the image.
    pub closed spec fn byte_len(self) -> nat {
        self.len as nat
    }

    /// The buffer that holds the image.
    pub closed spec fn memory(self) -> wgpu::Buffer {
        self.alloc.memory()
    }

    /// An image of `size` pixels in the memory of `alloc`, which takes `len` bytes of it.
    pub(crate) fn wrap(size: ImageSize, len: usize, alloc: WgpuAllocator) -> (image: Self)
        requires
            size.width * C <= usize::MAX,
        ensures
            image.dims() == size,
            image.extents() == seq![size.height, size.width, C],
            image.steps() == seq![(size.width * C) as usize, C, 1usize],
            image.byte_len() == len,
            image.memory() == alloc.memory(),
    {
        let image = GpuImage {
            shape: [size.height, size.width, C],
            strides: [size.width * C, C, 1],
            len,
            alloc,
            pixel: PhantomData,
        };
        assert(image.extents() =~= seq![size.height, size.width, C]);
        assert(image.steps() =~= seq![(size.width * C) as usize, C, 1usize]);
        image
    }

    /// Returns the logical size (dimensions) of the image.
    pub fn size(&self) -> (size: ImageSize)
        ensures
            size == self.dims(),
    {
        ImageSize { width: self.shape[1], height: self.shape[0] }
    }

    /// Returns the number of channels in the image.
    pub fn channels(&self) -> (channels: usize)
        ensures
            channels == C,
    {
        C
    }

    /// Returns the number of bytes of the image.
    pub fn len(&self) -> (len: usize)
        ensures
            len == self.byte_len(),
    {
        self.len
    }

    /// The owner of the image's memory.
    pub fn allocator(&self) -> (alloc: &WgpuAllocator)
        ensures
            alloc.memory() == self.memory(),
    {
        &self.alloc
    }

    /// Gives the image up for its memory.
    pub fn into_alloc(self) -> (alloc: WgpuAllocator)
        ensures
            alloc.memory() == self.memory(),
    {
        self.alloc
    }
}

/// A GPU-resident tensor.
///
/// It exposes no CPU slice methods: the only way to get element data out is
/// [`download_tensor`](crate::session::WgpuSession::download_tensor).
pub struct GpuTensor<T, const N: usize> {
    shape: [usize; N],
    strides: [usize; N],
    len: usize,
    alloc: WgpuAllocator,
    element: PhantomData<T>,
}

impl<T, const N: usize> GpuTensor<T, N> {
    /// The number of elements in each dimension.
    pub closed spec fn dims(self) -> Seq<usize> {
        self.shape@
    }

    /// How far apart neighbours in each dimension are.
    pub closed spec fn steps(self) -> Seq<usize> {
        self.strides@
    }

    /// The number of bytes of the tensor.
    pub closed spec fn byte_len(self) -> nat {
        self.len as nat
    }

    /// The buffer that holds the tensor.
    pub closed spec fn memory(self) -> wgpu::Buffer {
        self.alloc.memory()
    }

    /// A tensor in the memory of `alloc`, which takes `len` bytes of it.
    pub(crate) fn wrap(shape: [usize; N], strides: [usize; N], len: usize, alloc: WgpuAllocator) -> (tensor:
        Self)
        ensures
            tensor.dims() == shape@,
            tensor.steps() == strides@,
            tensor.byte_len() == len,
            tensor.memory() == alloc.memory(),
    {
        GpuTensor { shape, strides, len, alloc, element: PhantomData }
    }

    /// Returns the shape of the tensor.
    pub fn shape(&self) -> (shape: &[usize; N])
        ensures
            shape@ == self.dims(),
    {
        &self.shape
    }

    /// Returns the strides of the tensor.
    pub fn strides(&self) -> (strides: &[usize; N])
        ensures
            strides@ == self.steps(),
    {
        &self.strides
    }

    /// Returns the number of bytes of the tensor.
    pub fn len(&self) -> (len: usize)
        ensures
            len == self.byte_len(),
    {
        self.len
    }

    /// The owner of the tensor's memory.
    pub fn allocator(&self) -> (alloc: &WgpuAllocator)
        ensures
            alloc.memory() == self.memory(),
    {
        &self.alloc
    }

    /// Gives the tensor up for its memory.
    pub fn into_alloc(self) -> (alloc: WgpuAllocator)
        ensures
            alloc.memory() == self.memory(),
    {
        self.alloc
    }
}

} // verus!
