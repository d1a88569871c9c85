//! Errors of the weight store and of the tensor steps.
use vstd::prelude::*;

use crate::tensor_name::TensorName;

verus! {

/// Why a tensor could not be had or used.
#[derive(Debug)]
pub enum TensorError {
    /// The container holds no tensor under this name.
    MissingTensor(TensorName),
    /// The tensor has the first shape where the architecture expects the second.
    UnexpectedTensorDims(TensorName, Vec<usize>, Vec<usize>),
    /// A bias of the first shape cannot be spread over the second shape.
    UnexpectedBiasDims(Vec<usize>, Vec<usize>),
    /// The id `u32::MAX`, which the engine's row lookup reads as a row of zeros.
    UnexpectedTokenId(u32),
    /// Input embeddings of these dimensions, where `[rows, HIDDEN_DIM]` is needed.
    UnexpectedInputDims(Vec<usize>),
    /// A quantized tensor of these dimensions whose storage does not hold the
    /// blocks they call for.
    MismatchedStorage(Vec<usize>),
    /// An attention head takes six tensors, not this many.
    UnexpectedTensorCount(usize),
    /// The tensor engine failed.
    BuildingTensor(candle_core::Error),
}

} // verus!
