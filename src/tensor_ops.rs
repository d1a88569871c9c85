//! The tensor engine: the candle types the pipeline carries and the
//! operations it calls, each with what the pipeline relies on.
use vstd::prelude::*;

use candle_core::quantized::{GgmlDType, QTensor};
use candle_core::{DType, Device, Tensor};

verus! {

#[verifier::external_type_specification]
#[verifier::external_body]
pub struct ExTensor(candle_core::Tensor);

#[verifier::external_type_specification]
#[verifier::external_body]
pub struct ExQTensor(candle_core::quantized::QTensor);

#[verifier::external_type_specification]
#[verifier::external_body]
pub struct ExDevice(candle_core::Device);

#[verifier::external_type_specification]
pub struct ExGgmlDType(candle_core::quantized::GgmlDType);

#[verifier::external_type_specification]
#[verifier::external_body]
pub struct ExCandleError(candle_core::Error);

/// The dimensions of a tensor, outermost first.
pub uninterp spec fn shape_of(t: Tensor) -> Seq<usize>;

/// The dimensions of a quantized tensor, outermost first.
pub uninterp spec fn qshape_of(t: QTensor) -> Seq<usize>;

/// The quantized format of a quantized tensor.
pub uninterp spec fn qdtype_of(t: QTensor) -> GgmlDType;

/// The number of bytes that a quantized tensor's storage holds.
pub uninterp spec fn qstorage_bytes_of(t: QTensor) -> usize;

/// The number of elements in one block of a quantized format.
pub open spec fn block_size_of(d: GgmlDType) -> usize {
    match d {
        GgmlDType::F32 | GgmlDType::F16 | GgmlDType::BF16 => 1,
        GgmlDType::Q4_0 | GgmlDType::Q4_1 | GgmlDType::Q5_0 | GgmlDType::Q5_1 | GgmlDType::Q8_0
        | GgmlDType::Q8_1 => 32,
        GgmlDType::Q2K | GgmlDType::Q3K | GgmlDType::Q4K | GgmlDType::Q5K | GgmlDType::Q6K
        | GgmlDType::Q8K => 256,
    }
}

/// The number of bytes of one block of a quantized format.
pub open spec fn type_size_of(d: GgmlDType) -> usize {
    match d {
        GgmlDType::F32 => 4,
        GgmlDType::F16 | GgmlDType::BF16 => 2,
        GgmlDType::Q4_0 => 18,
        GgmlDType::Q4_1 => 20,
        GgmlDType::Q5_0 => 22,
        GgmlDType::Q5_1 => 24,
        GgmlDType::Q8_0 => 34,
        GgmlDType::Q8_1 => 36,
        GgmlDType::Q2K => 84,
        GgmlDType::Q3K => 110,
        GgmlDType::Q4K => 144,
        GgmlDType::Q5K => 176,
        GgmlDType::Q6K => 210,
        GgmlDType::Q8K => 292,
    }
}

/// `d` holds the values of the quantized tensor `q`, as 16-bit floats.
pub uninterp spec fn dequantized_from(d: Tensor, q: QTensor) -> bool;

/// `d` holds the values of `t`, as 16-bit floats.
pub uninterp spec fn converted_f16(d: Tensor, t: Tensor) -> bool;

/// `c` is the matrix product `a x b`.
pub uninterp spec fn product_of(c: Tensor, a: Tensor, b: Tensor) -> bool;

/// `d` holds the values of `t` under a new outermost dimension of size one.
pub uninterp spec fn unsqueezed_from(d: Tensor, t: Tensor) -> bool;

/// Every position of `d` holds the value of `t` at the position that
/// broadcasting maps it to: along a dimension of size one in `t`, or one that
/// `t` lacks, all positions of `d` take the same value of `t`.
pub uninterp spec fn broadcast_from(d: Tensor, t: Tensor) -> bool;

/// `c` is the elementwise sum of `a` and `b`.
pub uninterp spec fn sum_of(c: Tensor, a: Tensor, b: Tensor) -> bool;

/// Row `i` of `dst` holds the values of row `j` of `src`.
pub uninterp spec fn row_copied(dst: Tensor, i: nat, src: Tensor, j: nat) -> bool;

/// The number of elements of a tensor of these dimensions.
pub open spec fn dims_product(s: Seq<usize>) -> nat
    decreases s.len(),
{
    if s.len() == 0 {
        1
    } else {
        dims_product(s.drop_last()) * (s.last() as nat)
    }
}

/// The storage holds exactly the blocks that the shape calls for.
pub open spec fn storage_fits(t: QTensor) -> bool {
    let n = dims_product(qshape_of(t));
    let bs = block_size_of(qdtype_of(t));
    &&& n <= usize::MAX
    &&& bs > 0
    &&& n % (bs as nat) == 0
    &&& qstorage_bytes_of(t) == (n / (bs as nat)) * type_size_of(qdtype_of(t))
}

/// Relies on `QTensor::dtype`: the format of the tensor's storage.
#[verifier::external_body]
fn qdtype(t: &QTensor) -> (r: GgmlDType)
    ensures
        r == qdtype_of(*t),
{
    t.dtype()
}

/// Relies on `QTensor::storage_size_in_bytes`: the size of the tensor's storage.
#[verifier::external_body]
fn qstorage_bytes(t: &QTensor) -> (r: usize)
    ensures
        r == qstorage_bytes_of(*t),
{
    t.storage_size_in_bytes()
}

/// Relies on `GgmlDType::block_size`: the elements per block of each format.
#[verifier::external_body]
fn block_size(d: GgmlDType) -> (r: usize)
    ensures
        r == block_size_of(d),
        r > 0,
{
    d.block_size()
}

/// Relies on `GgmlDType::type_size`: the bytes of one block of each format,
/// as the sizes that candle asserts of its block types.
#[verifier::external_body]
fn type_size(d: GgmlDType) -> (r: usize)
    ensures
        r == type_size_of(d),
{
    d.type_size()
}

/// A prefix of dimensions that are all positive has no more elements than the whole.
proof fn lemma_prefix_product(s: Seq<usize>, i: int)
    requires
        0 <= i <= s.len(),
        forall|j: int| 0 <= j < s.len() ==> s[j] >= 1,
    ensures
        dims_product(s.take(i)) <= dims_product(s),
    decreases s.len() - i,
{
    if i < s.len() {
        lemma_prefix_product(s, i + 1);
        let a = dims_product(s.take(i));
        let b = s[i] as nat;
        assert(s.take(i + 1).drop_last() =~= s.take(i));
        assert(a * b >= a) by (nonlinear_arith)
            requires
                b >= 1,
        ;
    } else {
        assert(s.take(i) =~= s);
    }
}

/// The number of elements of a tensor of dimensions `s`, if it fits in a `usize`.
fn checked_product(s: &Vec<usize>) -> (r: Option<usize>)
    ensures
        r matches Some(n) ==> n == dims_product(s@),
        r is None ==> dims_product(s@) > usize::MAX,
{
    let mut i: usize = 0;
    while i < s.len()
        invariant
            i <= s.len(),
            forall|j: int| 0 <= j < i ==> s@[j] >= 1,
        decreases s.len() - i,
    {
        if s[i] == 0 {
            proof {
                lemma_product_zero(s@, i as int);
            }
            return Some(0);
        }
        i += 1;
    }
    let mut p: usize = 1;
    let mut k: usize = 0;
    proof {
        assert(s@.take(0) =~= Seq::<usize>::empty());
    }
    while k < s.len()
        invariant
            k <= s.len(),
            forall|j: int| 0 <= j < s@.len() ==> s@[j] >= 1,
            p == dims_product(s@.take(k as int)),
        decreases s.len() - k,
    {
        proof {
            assert(s@.take(k + 1).drop_last() =~= s@.take(k as int));
        }
        let d = s[k];
        if p > usize::MAX / d {
            proof {
                assert(p * d > usize::MAX) by (nonlinear_arith)
                    requires
                        p > usize::MAX / d,
                        d >= 1,
                ;
                lemma_prefix_product(s@, k + 1);
            }
            return None;
        }
        proof {
            assert(p * d <= usize::MAX) by (nonlinear_arith)
                requires
                    p <= usize::MAX / d,
                    d >= 1,
            ;
        }
        p = p * d;
        k += 1;
    }
    proof {
        assert(s@.take(k as int) =~= s@);
    }
    Some(p)
}

/// A zero dimension makes the whole product zero.
proof fn lemma_product_zero(s: Seq<usize>, i: int)
    requires
        0 <= i < s.len(),
        s[i] == 0,
    ensures
        dims_product(s) == 0,
    decreases s.len(),
{
    if i < s.len() - 1 {
        lemma_product_zero(s.drop_last(), i);
        assert(dims_product(s) == dims_product(s.drop_last()) * (s.last() as nat));
    } else {
        assert(s.last() == 0);
        assert(dims_product(s) == dims_product(s.drop_last()) * (s.last() as nat));
    }
}

/// Whether the tensor's storage holds exactly the blocks its shape calls for.
pub(crate) fn fits_storage(t: &QTensor) -> (r: bool)
    ensures
        r == storage_fits(*t),
{
    let dims = qdims(t);
    let n = match checked_product(&dims) {
        Some(n) => n,
        None => return false,
    };
    let d = qdtype(t);
    let bs = block_size(d);
    let ts = type_size(d);
    let bytes = qstorage_bytes(t);
    if n % bs != 0 {
        return false;
    }
    let blocks = n / bs;
    if ts != 0 && blocks > usize::MAX / ts {
        proof {
            assert(blocks * ts > usize::MAX) by (nonlinear_arith)
                requires
                    blocks > usize::MAX / ts,
                    ts >= 1,
            ;
        }
        return false;
    }
    proof {
        if ts != 0 {
            assert(blocks * ts <= usize::MAX) by (nonlinear_arith)
                requires
                    blocks <= usize::MAX / ts,
                    ts >= 1,
            ;
        }
    }
    blocks * ts == bytes
}

/// Relies on `Tensor::dims`: the tensor's dimensions.
#[verifier::external_body]
pub(crate) fn dims(t: &Tensor) -> (r: Vec<usize>)
    ensures
        r@ == shape_of(*t),
{
    t.dims().to_vec()
}

/// Relies on `QTensor::shape`: the quantized tensor's dimensions.
#[verifier::external_body]
pub(crate) fn qdims(t: &QTensor) -> (r: Vec<usize>)
    ensures
        r@ == qshape_of(*t),
{
    t.shape().dims().to_vec()
}

/// Relies on `QTensor::dequantize_f16`: a 16-bit float tensor of the same shape.
/// The storage must hold the blocks the shape calls for: dequantizing reads that many.
#[verifier::external_body]
pub(crate) fn dequantize_f16(t: &QTensor, device: &Device) -> (r: Result<Tensor, candle_core::Error>)
    requires
        storage_fits(*t),
    ensures
        r matches Ok(d) ==> shape_of(d) == qshape_of(*t) && dequantized_from(d, *t),
{
    t.dequantize_f16(device)
}

/// Relies on `Tensor::to_dtype` with `DType::F16`: the same shape in 16-bit floats.
#[verifier::external_body]
pub(crate) fn to_f16(t: &Tensor) -> (r: Result<Tensor, candle_core::Error>)
    ensures
        r matches Ok(d) ==> shape_of(d) == shape_of(*t) && converted_f16(d, *t),
{
    t.to_dtype(DType::F16)
}

/// Relies on `Tensor::matmul`: `[.., m, k] x [.., k, n]` gives `[.., m, n]`.
/// Inner dimensions that differ fail, unless `k` or the result is empty.
#[verifier::external_body]
pub(crate) fn matmul(a: &Tensor, b: &Tensor) -> (r: Result<Tensor, candle_core::Error>)
    ensures
        r matches Ok(c) ==> {
            let (x, y) = (shape_of(*a), shape_of(*b));
            &&& x.len() >= 2
            &&& y.len() == x.len()
            &&& shape_of(c) == x.take(x.len() - 2) + seq![x[x.len() - 2], y[y.len() - 1]]
            &&& x[x.len() - 1] == y[y.len() - 2] || x[x.len() - 1] == 0 || dims_product(
                shape_of(c),
            ) == 0
            &&& product_of(c, *a, *b)
        },
{
    a.matmul(b)
}

/// Relies on `Tensor::unsqueeze(0)`: a new outermost dimension of size one.
#[verifier::external_body]
pub(crate) fn unsqueeze_front(t: &Tensor) -> (r: Result<Tensor, candle_core::Error>)
    ensures
        r matches Ok(d) ==> shape_of(d) == seq![1usize] + shape_of(*t) && unsqueezed_from(d, *t),
{
    t.unsqueeze(0)
}

/// Relies on `Tensor::broadcast_as`: the tensor repeated to the given shape.
#[verifier::external_body]
pub(crate) fn broadcast_as(t: &Tensor, shape: &Vec<usize>) -> (r: Result<Tensor, candle_core::Error>)
    ensures
        r matches Ok(d) ==> shape_of(d) == shape@ && broadcast_from(d, *t),
{
    t.broadcast_as(shape.clone())
}

/// Relies on `Tensor::add`: elementwise sum of two tensors of one shape; other shapes fail.
#[verifier::external_body]
pub(crate) fn add_same_shape(a: &Tensor, b: &Tensor) -> (r: Result<Tensor, candle_core::Error>)
    ensures
        r matches Ok(c) ==> shape_of(*a) == shape_of(*b) && shape_of(c) == shape_of(*a) && sum_of(
            c,
            *a,
            *b,
        ),
        shape_of(*a) != shape_of(*b) ==> r is Err,
{
    a.add(b)
}

/// Relies on `Tensor::index_select` along dimension 0, with the ids given as
/// a vector by `Tensor::from_vec`: row `i` of the result is row `ids[i]` of
/// `t`. An id past the last row fails, except `u32::MAX`, which gives a row of zeros.
#[verifier::external_body]
pub(crate) fn select_rows(t: &Tensor, ids: Vec<u32>) -> (r: Result<Tensor, candle_core::Error>)
    ensures
        r matches Ok(d) ==> {
            &&& shape_of(*t).len() >= 1
            &&& shape_of(d) == shape_of(*t).update(0, ids@.len() as usize)
            &&& forall|i: int|
                0 <= i < ids@.len() ==> ids@[i] == u32::MAX || ids@[i] < shape_of(*t)[0]
            &&& forall|i: int|
                0 <= i < ids@.len() && ids@[i] != u32::MAX ==> row_copied(
                    d,
                    i as nat,
                    *t,
                    ids@[i] as nat,
                )
        },
{
    let n = ids.len();
    let ids = Tensor::from_vec(ids, (n,), t.device())?;
    t.index_select(&ids, 0)
}

} // verus!
