//! Projecting positioned embeddings through a layer's attention head.
use vstd::prelude::*;

use candle_core::quantized::QTensor;
use candle_core::{Device, Tensor};

use crate::attn_head::{net_ok, AttnHead, NeuralNet};
use crate::input::{InputData, InputSeq, PositionedEmbeddings};
use crate::tensor_name::HIDDEN_DIM;
use crate::tensor_ops::{
    add_same_shape, broadcast_as, broadcast_from, converted_f16, dequantize_f16, dequantized_from,
    dims, fits_storage, matmul, product_of, qdims, qshape_of, shape_of, storage_fits, sum_of, to_f16,
    unsqueeze_front, unsqueezed_from,
};
use crate::weights::TensorError;

verus! {

/// The query, key and value projections of an input.
pub struct Encoded {
    q: Tensor,
    k: Tensor,
    v: Tensor,
}

impl InputData for Encoded {}

impl Encoded {
    pub closed spec fn q_spec(&self) -> Tensor {
        self.q
    }

    pub closed spec fn k_spec(&self) -> Tensor {
        self.k
    }

    pub closed spec fn v_spec(&self) -> Tensor {
        self.v
    }

    pub fn new(q: Tensor, k: Tensor, v: Tensor) -> (r: Self)
        ensures
            r.q_spec() == q,
            r.k_spec() == k,
            r.v_spec() == v,
    {
        Self { q, k, v }
    }

    pub fn get_q(&self) -> (r: &Tensor)
        ensures
            *r == self.q_spec(),
    {
        &self.q
    }

    pub fn get_k(&self) -> (r: &Tensor)
        ensures
            *r == self.k_spec(),
    {
        &self.k
    }

    pub fn get_v(&self) -> (r: &Tensor)
        ensures
            *r == self.v_spec(),
    {
        &self.v
    }
}

/// A bias vector fits a shape whose last dimension is its length.
pub open spec fn bias_fits(bias: Seq<usize>, shape: Seq<usize>) -> bool {
    &&& bias.len() == 1
    &&& shape.len() >= 1
    &&& bias[0] == shape[shape.len() - 1]
}

/// `full` is the bias, dequantized to 16-bit floats, made a row and
/// repeated over the shape of `full`: every row of `full` is the bias.
pub open spec fn bias_broadcast(full: Tensor, bias: QTensor) -> bool {
    exists|b: Tensor, row: Tensor|
        #![trigger dequantized_from(b, bias), unsqueezed_from(row, b)]
        dequantized_from(b, bias) && unsqueezed_from(row, b) && broadcast_from(full, row)
}

/// `out` is `x @ W + bias` for the projection `net`: the product of `x` with
/// the dequantized weights, plus the bias on every row.
pub open spec fn projection(out: Tensor, x: Tensor, net: NeuralNet) -> bool {
    exists|w: Tensor, prod: Tensor, full: Tensor|
        #![trigger dequantized_from(w, net.weights), product_of(prod, x, w), sum_of(out, prod, full)]
        dequantized_from(w, net.weights) && product_of(prod, x, w) && bias_broadcast(full, net.bias)
            && sum_of(out, prod, full)
}

fn engine<T>(r: Result<T, candle_core::Error>) -> (out: Result<T, TensorError>)
    ensures
        r matches Ok(x) ==> out == Ok::<T, TensorError>(x),
        r is Err ==> out matches Err(TensorError::BuildingTensor(_)),
{
    match r {
        Ok(x) => Ok(x),
        Err(e) => Err(TensorError::BuildingTensor(e)),
    }
}

/// Spreads a bias vector over `shape`: every row of the result is the bias,
/// as a matrix product's rows take it. Fails where the bias's length is not
/// the last dimension of `shape`, or where its storage does not hold the
/// blocks its shape calls for.
pub fn stack_1d_tensor(shape: &Vec<usize>, tensor: &QTensor, device: &Device) -> (r: Result<
    Tensor,
    TensorError,
>)
    ensures
        (r matches Err(TensorError::UnexpectedBiasDims(_, _))) <==> !bias_fits(
            qshape_of(*tensor),
            shape@,
        ),
        r matches Err(TensorError::UnexpectedBiasDims(b, s)) ==> b@ == qshape_of(*tensor) && s@
            == shape@,
        (r matches Err(TensorError::MismatchedStorage(_))) <==> bias_fits(
            qshape_of(*tensor),
            shape@,
        ) && !storage_fits(*tensor),
        r matches Err(TensorError::MismatchedStorage(d)) ==> d@ == qshape_of(*tensor),
        r matches Ok(t) ==> shape_of(t) == shape@ && bias_broadcast(t, *tensor),
        r matches Err(e) ==> e is UnexpectedBiasDims || e is MismatchedStorage || e is BuildingTensor,
{
    let bias_dims = qdims(tensor);
    if bias_dims.len() != 1 || shape.len() == 0 || bias_dims[0] != shape[shape.len() - 1] {
        return Err(TensorError::UnexpectedBiasDims(bias_dims, shape.clone()));
    }
    if !fits_storage(tensor) {
        return Err(TensorError::MismatchedStorage(bias_dims));
    }
    let bias = engine(dequantize_f16(tensor, device))?;
    let row = engine(unsqueeze_front(&bias))?;
    let full = engine(broadcast_as(&row, shape))?;
    proof {
        assert(dequantized_from(bias, *tensor) && unsqueezed_from(row, bias) && broadcast_from(full, row));
    }
    Ok(full)
}

/// `embeds @ weights + bias`, the bias added to every row.
fn project(net: &NeuralNet, embeds: &Tensor, device: &Device) -> (r: Result<Tensor, TensorError>)
    requires
        net_ok(*net),
    ensures
        r matches Ok(t) ==> shape_of(*embeds).len() == 2 && shape_of(t) == seq![
            shape_of(*embeds)[0],
            HIDDEN_DIM,
        ],
        r matches Ok(t) ==> projection(t, *embeds, *net),
        r matches Err(e) ==> e is BuildingTensor,
{
    let weights = engine(dequantize_f16(&net.weights, device))?;
    let product = engine(matmul(embeds, &weights))?;
    let product_dims = dims(&product);
    let bias = stack_1d_tensor(&product_dims, &net.bias, device)?;
    let sum = engine(add_same_shape(&product, &bias))?;
    proof {
        assert(dequantized_from(weights, net.weights) && product_of(product, *embeds, weights)
            && sum_of(sum, product, bias));
        let x = shape_of(*embeds);
        assert(x.take(0) + seq![x[0], HIDDEN_DIM] =~= seq![x[0], HIDDEN_DIM]);
    }
    Ok(sum)
}

impl AttnHead {
    /// Projects the positioned embeddings, in 16-bit floats, through the
    /// head's query, key and value projections: each is `x @ W + bias`, with
    /// the bias on every row. The input must be `HIDDEN_DIM` wide.
    pub fn encode(&self, input: InputSeq<PositionedEmbeddings>, device: &Device) -> (r: Result<
        InputSeq<Encoded>,
        TensorError,
    >)
        requires
            self.wf(),
        ensures
            (r matches Err(TensorError::UnexpectedInputDims(_))) <==> !(input.state.shape().len()
                == 2 && input.state.shape()[1] == HIDDEN_DIM),
            r matches Err(TensorError::UnexpectedInputDims(d)) ==> d@ == input.state.shape(),
            r matches Err(e) ==> e is UnexpectedInputDims || e is BuildingTensor,
            r matches Ok(e) ==> {
                let rows = input.state.shape()[0];
                &&& input.state.shape().len() == 2
                &&& input.state.shape()[1] == HIDDEN_DIM
                &&& shape_of(e.state.q_spec()) == seq![rows, HIDDEN_DIM]
                &&& shape_of(e.state.k_spec()) == seq![rows, HIDDEN_DIM]
                &&& shape_of(e.state.v_spec()) == seq![rows, HIDDEN_DIM]
                &&& exists|x: Tensor|
                    #![trigger converted_f16(x, input.state.tensor())]
                    converted_f16(x, input.state.tensor()) && projection(
                        e.state.q_spec(),
                        x,
                        self.q_net(),
                    ) && projection(e.state.k_spec(), x, self.k_net()) && projection(
                        e.state.v_spec(),
                        x,
                        self.v_net(),
                    )
            },
    {
        let input_dims = dims(input.get_embeds());
        if input_dims.len() != 2 || input_dims[1] != HIDDEN_DIM {
            return Err(TensorError::UnexpectedInputDims(input_dims));
        }
        let embeds = engine(to_f16(input.get_embeds()))?;
        let q = project(self.get_q(), &embeds, device)?;
        let k = project(self.get_k(), &embeds, device)?;
        let v = project(self.get_v(), &embeds, device)?;
        let r = Encoded::new(q, k, v);
        proof {
            assert(converted_f16(embeds, input.state.tensor()));
        }
        Ok(InputSeq { state: r })
    }
}

} // verus!
