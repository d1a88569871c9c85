//! The query, key and value projections of one encoder layer.
use vstd::prelude::*;

use candle_core::quantized::QTensor;

use crate::tensor_name::{expected_dims, AttnLayer, AttnType, TensorName, TensorType, HIDDEN_DIM};
use crate::tensor_ops::{qshape_of, storage_fits};
use crate::tensors::CheckedTensor;
use crate::weights::TensorError;

verus! {

/// The bias vector and weight matrix of one projection.
pub struct NeuralNet {
    pub bias: QTensor,
    pub weights: QTensor,
}

/// A bias of the hidden width and a square weight matrix of it, each with
/// the storage its shape calls for.
pub open spec fn net_ok(n: NeuralNet) -> bool {
    &&& qshape_of(n.bias) == seq![HIDDEN_DIM]
    &&& qshape_of(n.weights) == seq![HIDDEN_DIM, HIDDEN_DIM]
    &&& storage_fits(n.bias)
    &&& storage_fits(n.weights)
}

pub open spec fn self_attn(layer: usize, a: AttnType, t: TensorType) -> TensorName {
    TensorName::SelfAttn(AttnLayer { attn_type: a, tensor_type: t, layer })
}

/// The six tensors of a layer's head: bias then weight of the query, key and value projections.
pub open spec fn layer_names(layer: usize) -> Seq<TensorName> {
    seq![
        self_attn(layer, AttnType::Query, TensorType::Bias),
        self_attn(layer, AttnType::Query, TensorType::Weight),
        self_attn(layer, AttnType::Key, TensorType::Bias),
        self_attn(layer, AttnType::Key, TensorType::Weight),
        self_attn(layer, AttnType::Value, TensorType::Bias),
        self_attn(layer, AttnType::Value, TensorType::Weight),
    ]
}

/// The self-attention projections of one encoder layer.
pub struct AttnHead {
    q: NeuralNet,
    k: NeuralNet,
    v: NeuralNet,
}

impl AttnHead {
    pub closed spec fn q_net(&self) -> NeuralNet {
        self.q
    }

    pub closed spec fn k_net(&self) -> NeuralNet {
        self.k
    }

    pub closed spec fn v_net(&self) -> NeuralNet {
        self.v
    }

    pub open spec fn wf(&self) -> bool {
        net_ok(self.q_net()) && net_ok(self.k_net()) && net_ok(self.v_net())
    }

    pub fn get_q(&self) -> (r: &NeuralNet)
        ensures
            *r == self.q_net(),
    {
        &self.q
    }

    pub fn get_k(&self) -> (r: &NeuralNet)
        ensures
            *r == self.k_net(),
    {
        &self.k
    }

    pub fn get_v(&self) -> (r: &NeuralNet)
        ensures
            *r == self.v_net(),
    {
        &self.v
    }

    /// The names of the six tensors that `new` takes for `layer`, in its order.
    pub fn tensor_names(layer: usize) -> (r: Vec<TensorName>)
        ensures
            r@ == layer_names(layer),
    {
        let mut names: Vec<TensorName> = Vec::new();
        let attns = [AttnType::Query, AttnType::Key, AttnType::Value];
        let kinds = [TensorType::Bias, TensorType::Weight];
        let mut a: usize = 0;
        while a < 3
            invariant
                a <= 3,
                attns@ == seq![AttnType::Query, AttnType::Key, AttnType::Value],
                kinds@ == seq![TensorType::Bias, TensorType::Weight],
                names@ == layer_names(layer).take(2 * a),
            decreases 3 - a,
        {
            let mut t: usize = 0;
            while t < 2
                invariant
                    a < 3,
                    t <= 2,
                    attns@ == seq![AttnType::Query, AttnType::Key, AttnType::Value],
                    kinds@ == seq![TensorType::Bias, TensorType::Weight],
                    names@ == layer_names(layer).take(2 * a + t),
                decreases 2 - t,
            {
                names.push(
                    TensorName::SelfAttn(
                        AttnLayer { attn_type: attns[a], tensor_type: kinds[t], layer },
                    ),
                );
                t += 1;
                proof {
                    assert(names@ =~= layer_names(layer).take(2 * a + t));
                }
            }
            a += 1;
        }
        proof {
            assert(layer_names(layer).take(6) =~= layer_names(layer));
        }
        names
    }

    /// Builds the head of `layer` from its six tensors, given in the order of
    /// `tensor_names`.
    pub fn new(layer: usize, tensors: Vec<CheckedTensor>) -> (r: Result<Self, TensorError>)
        ensures
            r is Ok <==> tensors@.len() == 6 && forall|i: int|
                0 <= i < 6 ==> #[trigger] tensors@[i].name_spec() == layer_names(layer)[i],
            r matches Ok(h) ==> {
                &&& h.wf()
                &&& h.q_net() == NeuralNet {
                    bias: tensors@[0].qtensor(),
                    weights: tensors@[1].qtensor(),
                }
                &&& h.k_net() == NeuralNet {
                    bias: tensors@[2].qtensor(),
                    weights: tensors@[3].qtensor(),
                }
                &&& h.v_net() == NeuralNet {
                    bias: tensors@[4].qtensor(),
                    weights: tensors@[5].qtensor(),
                }
            },
            (r matches Err(TensorError::UnexpectedTensorCount(_))) <==> tensors@.len() != 6,
            r matches Err(TensorError::UnexpectedTensorCount(n)) ==> n == tensors@.len(),
            r matches Err(TensorError::MissingTensor(n)) ==> tensors@.len() == 6 && exists|i: int|
                0 <= i < 6 && n == layer_names(layer)[i] && tensors@[i].name_spec() != n,
    {
        if tensors.len() != 6 {
            return Err(TensorError::UnexpectedTensorCount(tensors.len()));
        }
        let names = Self::tensor_names(layer);
        let mut i: usize = 0;
        while i < 6
            invariant
                i <= 6,
                tensors@.len() == 6,
                names@ == layer_names(layer),
                forall|j: int| 0 <= j < i ==> #[trigger] tensors@[j].name_spec() == layer_names(layer)[j],
            decreases 6 - i,
        {
            if tensors[i].name() != names[i] {
                return Err(TensorError::MissingTensor(names[i]));
            }
            i += 1;
        }
        let ghost given = tensors@;
        let mut tensors = tensors;
        let v_weights = tensors.pop().unwrap();
        let v_bias = tensors.pop().unwrap();
        let k_weights = tensors.pop().unwrap();
        let k_bias = tensors.pop().unwrap();
        let q_weights = tensors.pop().unwrap();
        let q_bias = tensors.pop().unwrap();
        let h = AttnHead {
            q: NeuralNet { bias: q_bias.into_qtensor(), weights: q_weights.into_qtensor() },
            k: NeuralNet { bias: k_bias.into_qtensor(), weights: k_weights.into_qtensor() },
            v: NeuralNet { bias: v_bias.into_qtensor(), weights: v_weights.into_qtensor() },
        };
        proof {
            assert(given[0].name_spec() == layer_names(layer)[0]);
            assert(given[1].name_spec() == layer_names(layer)[1]);
            assert(given[2].name_spec() == layer_names(layer)[2]);
            assert(given[3].name_spec() == layer_names(layer)[3]);
            assert(given[4].name_spec() == layer_names(layer)[4]);
            assert(given[5].name_spec() == layer_names(layer)[5]);
        }
        Ok(h)
    }
}

} // verus!
