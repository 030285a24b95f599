//! Images and tensors in the memory of the CPU.
use vstd::prelude::*;

use crate::bytes::Plain;
use crate::error::WgpuError;
use crate::text::decimal;

verus! {

/// `kornia_tensor`'s error of a tensor that cannot be made.
#[verifier::external_type_specification]
#[verifier::external_body]
pub struct ExTensorError(kornia_tensor::TensorError);

// ── Images ───────────────────────────────────────────────────────────────────

/// The size of an image in pixels.
#[derive(Clone, Copy, Debug, PartialEq, Eq, Structural)]
pub struct ImageSize {
    pub width: usize,
    pub height: usize,
}

impl ImageSize {
    /// The number of components of an image of this size with `channels` components per pixel.
    pub open spec fn numel(self, channels: usize) -> nat {
        (self.width * self.height * channels) as nat
    }

    /// The numbers of pixels, of components in a row and of components in all can be computed.
    pub open spec fn countable(self, channels: usize) -> bool {
        &&& self.width * self.height <= usize::MAX
        &&& self.width * channels <= usize::MAX
        &&& self.numel(channels) <= usize::MAX
    }

    /// The number of components of an image of this size.
    pub fn count(self, channels: usize) -> (n: usize)
        requires
            self.countable(channels),
        ensures
            n == self.numel(channels),
    {
        self.width * self.height * channels
    }
}

/// What is said of a number of components that is not the one of the size.
pub open spec fn mismatch_text(len: nat, expected: nat) -> Seq<char> {
    "Data length ("@ + decimal(len) + ") does not match the image size ("@
        + decimal(expected) + ")"@
}

/// `kornia_image::Image::new` on the CPU, and the components of the image it gives: it takes
/// exactly as many components as the size asks for, and keeps them in order. It refuses any other
/// number with the text of its error.
///
/// A type of elements whose bytes are all possible ones is not zero-sized, which is what
/// `kornia_tensor` needs to count them.
#[verifier::external_body]
fn new_image<T: Plain, const C: usize>(size: ImageSize, data: Vec<T>) -> (outcome: Result<
    Vec<T>,
    String,
>)
    requires
        size.countable(C),
    ensures
        outcome is Ok <==> data@.len() == size.numel(C),
        outcome matches Ok(kept) ==> kept@ == data@,
        outcome matches Err(text) ==> text@ == mismatch_text(data@.len(), size.numel(C)),
{
    let size = kornia_image::ImageSize { width: size.width, height: size.height };
    match kornia_image::Image::<T, C, _>::new(size, data, kornia_image::allocator::CpuAllocator) {
        Ok(image) => Ok(image.0.into_vec()),
        Err(error) => Err(error.to_string()),
    }
}

/// An image in the memory of the CPU, with `C` components per pixel.
pub struct Image<T, const C: usize> {
    size: ImageSize,
    data: Vec<T>,
}

impl<T, const C: usize> Image<T, C> {
    /// The size of the image.
    pub closed spec fn dims(self) -> ImageSize {
        self.size
    }

    /// The components of the image, row by row.
    pub closed spec fn pixels(self) -> Seq<T> {
        self.data@
    }

    #[verifier::type_invariant]
    closed spec fn complete(self) -> bool {
        self.size.countable(C) && self.data@.len() == self.size.numel(C)
    }

    /// The size of the image.
    pub fn size(&self) -> (size: ImageSize)
        ensures
            size == self.dims(),
            size.countable(C),
    {
        proof {
            use_type_invariant(self);
        }
        self.size
    }

    /// The components of the image, row by row.
    pub fn as_slice(&self) -> (data: &[T])
        ensures
            data@ == self.pixels(),
            data@.len() == self.dims().numel(C),
    {
        proof {
            use_type_invariant(self);
        }
        self.data.as_slice()
    }
}

impl<T: Plain, const C: usize> Image<T, C> {
    /// An image of the given size and components. Their number has to be that of the size.
    pub fn new(size: ImageSize, data: Vec<T>) -> (outcome: Result<Self, WgpuError>)
        requires
            size.countable(C),
        ensures
            outcome is Ok <==> data@.len() == size.numel(C),
            outcome matches Ok(image) ==> image.dims() == size && image.pixels() == data@,
            outcome matches Err(error) ==> error matches WgpuError::ImageError(text) && text@
                == mismatch_text(data@.len(), size.numel(C)),
    {
        match new_image::<T, C>(size, data) {
            Ok(data) => Ok(Image { size, data }),
            Err(text) => Err(WgpuError::ImageError(text)),
        }
    }
}

// ── Tensors ──────────────────────────────────────────────────────────────────

/// The product of the numbers.
pub open spec fn product(dims: Seq<usize>) -> nat
    decreases dims.len(),
{
    if dims.len() == 0 {
        1
    } else {
        product(dims.drop_last()) * (dims.last() as nat)
    }
}

/// The strides of a tensor whose elements stand in row-major order: how far apart the elements
/// are whose index differs by one in that dimension.
pub open spec fn row_major(shape: Seq<usize>) -> Seq<nat> {
    Seq::new(shape.len(), |i: int| product(shape.skip(i + 1)))
}

/// The number of elements and the strides can be computed.
pub open spec fn computable(shape: Seq<usize>) -> bool {
    &&& forall|i: int|
        0 <= i <= shape.len() ==> product(#[trigger] shape.take(i)) <= usize::MAX
    &&& forall|i: int| 0 <= i <= shape.len() ==> product(#[trigger] shape.skip(i)) <= usize::MAX
}

/// A product can be taken in two parts.
pub proof fn lemma_product_split(dims: Seq<usize>, k: int)
    requires
        0 <= k <= dims.len(),
    ensures
        product(dims) == product(dims.take(k)) * product(dims.skip(k)),
    decreases dims.len() - k,
{
    if k == dims.len() {
        assert(dims.take(k) =~= dims);
        assert(dims.skip(k) =~= Seq::<usize>::empty());
    } else {
        lemma_product_split(dims.drop_last(), k);
        assert(dims.drop_last().take(k) =~= dims.take(k));
        assert(dims.drop_last().skip(k) =~= dims.skip(k).drop_last());
        let (a, b, c) = (product(dims.take(k)), product(dims.skip(k).drop_last()), dims.last() as nat);
        assert(dims.skip(k).last() == dims.last());
        assert((a * b) * c == a * (b * c)) by (nonlinear_arith);
    }
}

/// Where there are elements at all, it is enough that their number can be computed.
pub proof fn law_counted_shapes_are_computable(shape: Seq<usize>)
    requires
        0 < product(shape) <= usize::MAX,
    ensures
        computable(shape),
{
    assert forall|i: int| 0 <= i <= shape.len() implies product(#[trigger] shape.take(i)) <= usize::MAX
        && product(shape.skip(i)) <= usize::MAX by {
        lemma_product_split(shape, i);
        let (a, b) = (product(shape.take(i)), product(shape.skip(i)));
        assert(a <= a * b && b <= a * b) by (nonlinear_arith)
            requires
                a * b > 0,
                a >= 0,
                b >= 0,
        ;
    }
    assert forall|i: int| 0 <= i <= shape.len() implies product(#[trigger] shape.skip(i)) <= usize::MAX by {
        assert(product(shape.take(i)) <= usize::MAX);
    }
}

/// An element further along the last dimension is the next one, and one further along any other is as
/// many elements on as there are along all that follow it: the strides of neighbouring dimensions are the
/// length of the inner one apart, and the outermost one spans all elements.
pub proof fn law_strides_span_the_inner_dimensions(shape: Seq<usize>, i: int)
    requires
        0 <= i < shape.len(),
    ensures
        row_major(shape).len() == shape.len(),
        row_major(shape).last() == 1,
        i + 1 < shape.len() ==> row_major(shape)[i] == shape[i + 1] * row_major(shape)[i + 1],
        product(shape) == shape[0] * row_major(shape)[0],
{
    reveal_with_fuel(product, 2);
    let n = shape.len() as int;
    assert(shape.skip(n) =~= Seq::<usize>::empty());
    lemma_first_factor(shape);
    assert(shape.skip(0) =~= shape);
    if i + 1 < n {
        lemma_first_factor(shape.skip(i + 1));
        assert(shape.skip(i + 1).skip(1) =~= shape.skip(i + 2));
    }
}

/// The first number of a product, and the others.
proof fn lemma_first_factor(dims: Seq<usize>)
    requires
        dims.len() > 0,
    ensures
        product(dims) == dims[0] * product(dims.skip(1)),
{
    lemma_product_split(dims, 1);
    let first = dims.take(1);
    assert(first.drop_last() =~= Seq::<usize>::empty());
    assert(product(first.drop_last()) == 1);
    assert(first.last() == dims[0]);
    assert(product(first) == 1 * (first.last() as nat));
}

/// The product of the numbers.
pub fn product_of(dims: &[usize]) -> (n: usize)
    requires
        forall|i: int| 0 <= i <= dims@.len() ==> product(#[trigger] dims@.take(i)) <= usize::MAX,
    ensures
        n == product(dims@),
{
    let mut n: usize = 1;
    for i in 0..dims.len()
        invariant
            n == product(dims@.take(i as int)),
            forall|j: int| 0 <= j <= dims@.len() ==> product(#[trigger] dims@.take(j)) <= usize::MAX,
    {
        assert(dims@.take(i + 1).drop_last() =~= dims@.take(i as int));
        assert(product(dims@.take(i + 1)) <= usize::MAX);
        n = n * dims[i];
    }
    assert(dims@.take(dims@.len() as int) =~= dims@);
    n
}

/// Why a tensor could not be made.
#[derive(Clone, Copy, Debug, PartialEq, Eq, Structural)]
pub enum ShapeError {
    /// The shape has this number of elements, which is not the number that was given.
    InvalidShape(usize),
}

/// `kornia_tensor::Tensor::from_shape_vec` on the CPU, and the elements and strides of the tensor
/// it gives: it takes exactly as many elements as the shape has, keeps them in order, and lays
/// them out row-major.
///
/// A type of elements whose bytes are all possible ones is not zero-sized, which is what
/// `kornia_tensor` needs to count them.
#[verifier::external_body]
fn new_tensor<T: Plain, const N: usize>(shape: [usize; N], data: Vec<T>) -> (outcome: Result<
    (Vec<T>, [usize; N]),
    kornia_tensor::TensorError,
>)
    requires
        computable(shape@),
    ensures
        outcome is Ok <==> data@.len() == product(shape@),
        outcome matches Ok((kept, strides)) ==> kept@ == data@ && forall|i: int|
            0 <= i < N ==> #[trigger] strides@[i] == row_major(shape@)[i],
{
    kornia_tensor::Tensor::<T, N, _>::from_shape_vec(shape, data, kornia_tensor::CpuAllocator).map(
        |tensor|
            {
                let strides = tensor.strides;
                (tensor.into_vec(), strides)
            },
    )
}

/// A tensor in the memory of the CPU.
pub struct Tensor<T, const N: usize> {
    shape: [usize; N],
    strides: [usize; N],
    data: Vec<T>,
}

impl<T, const N: usize> Tensor<T, N> {
    /// The number of elements in each dimension.
    pub closed spec fn dims(self) -> Seq<usize> {
        self.shape@
    }

    /// How far apart neighbours in each dimension are.
    pub closed spec fn steps(self) -> Seq<usize> {
        self.strides@
    }

    /// The elements of the tensor.
    pub closed spec fn elements(self) -> Seq<T> {
        self.data@
    }

    #[verifier::type_invariant]
    closed spec fn complete(self) -> bool {
        &&& computable(self.shape@)
        &&& self.data@.len() == product(self.shape@)
    }

    /// The number of elements in each dimension.
    pub fn shape(&self) -> (shape: &[usize; N])
        ensures
            shape@ == self.dims(),
            computable(shape@),
    {
        proof {
            use_type_invariant(self);
        }
        &self.shape
    }

    /// How far apart neighbours in each dimension are.
    pub fn strides(&self) -> (strides: &[usize; N])
        ensures
            strides@ == self.steps(),
    {
        &self.strides
    }

    /// The same elements with other strides.
    pub fn with_strides(self, strides: [usize; N]) -> (tensor: Self)
        ensures
            tensor.dims() == self.dims(),
            tensor.steps() == strides@,
            tensor.elements() == self.elements(),
    {
        proof {
            use_type_invariant(&self);
        }
        Tensor { shape: self.shape, strides, data: self.data }
    }

    /// The elements of the tensor.
    pub fn as_slice(&self) -> (data: &[T])
        ensures
            data@ == self.elements(),
            data@.len() == product(self.dims()),
    {
        proof {
            use_type_invariant(self);
        }
        self.data.as_slice()
    }
}

impl<T: Plain, const N: usize> Tensor<T, N> {
    /// A tensor of the given shape and elements. Their number has to be that of the shape.
    pub fn from_shape_vec(shape: [usize; N], data: Vec<T>) -> (outcome: Result<Self, ShapeError>)
        requires
            computable(shape@),
        ensures
            outcome is Ok <==> data@.len() == product(shape@),
            outcome matches Ok(tensor) ==> tensor.dims() == shape@ && tensor.elements() == data@
                && forall|i: int| 0 <= i < N ==> #[trigger] tensor.steps()[i] == row_major(shape@)[i],
            outcome matches Err(error) ==> error == ShapeError::InvalidShape(
                product(shape@) as usize,
            ),
    {
        match new_tensor(shape, data) {
            Ok((data, strides)) => Ok(Tensor { shape, strides, data }),
            Err(_) => {
                assert(shape@.take(shape@.len() as int) =~= shape@);
                Err(ShapeError::InvalidShape(product_of(shape.as_slice())))
            },
        }
    }
}

} // verus!
