//! The directory of the model container, and tensors checked against the
//! shape their name calls for.
use vstd::prelude::*;

use candle_core::quantized::QTensor;

use crate::tensor_name::{canonical, expected_dims, TensorName};
use crate::tensor_ops::{fits_storage, qdims, qshape_of, storage_fits};
use crate::text::{chars_eq, to_chars};
use crate::weights::TensorError;

verus! {

/// One record of the container's directory: a tensor's name and dimensions.
pub struct TensorEntry {
    pub name: String,
    pub dims: Vec<usize>,
}

/// Whether some entry of the directory has this name.
pub open spec fn has_tensor(d: Seq<(Seq<char>, Seq<usize>)>, name: Seq<char>) -> bool {
    exists|k: int| 0 <= k < d.len() && d[k].0 == name
}

/// Entry `k` is the first under `name`.
pub open spec fn first_named(d: Seq<(Seq<char>, Seq<usize>)>, name: Seq<char>, k: int) -> bool {
    &&& 0 <= k < d.len()
    &&& d[k].0 == name
    &&& forall|j: int| 0 <= j < k ==> d[j].0 != name
}

pub open spec fn directory_view(e: Seq<TensorEntry>) -> Seq<(Seq<char>, Seq<usize>)> {
    e.map_values(|x: TensorEntry| (x.name@, x.dims@))
}

/// The container's directory of tensors, by name.
pub struct BartTensors {
    names: Vec<Vec<char>>,
    dims: Vec<Vec<usize>>,
}

impl View for BartTensors {
    type V = Seq<(Seq<char>, Seq<usize>)>;

    closed spec fn view(&self) -> Seq<(Seq<char>, Seq<usize>)> {
        Seq::new(self.names@.len(), |k: int| (self.names@[k]@, self.dims@[k]@))
    }
}

impl BartTensors {
    pub closed spec fn wf(&self) -> bool {
        self.names@.len() == self.dims@.len()
    }

    /// The directory of the given entries, in their order.
    pub fn from_directory(entries: Vec<TensorEntry>) -> (r: Self)
        ensures
            r.wf(),
            r@ == directory_view(entries@),
    {
        let mut names: Vec<Vec<char>> = Vec::new();
        let mut dims: Vec<Vec<usize>> = Vec::new();
        let mut i: usize = 0;
        while i < entries.len()
            invariant
                i <= entries.len(),
                names@.len() == i,
                dims@.len() == i,
                forall|k: int|
                    0 <= k < i ==> names@[k]@ == entries@[k].name@ && dims@[k]@ == entries@[k].dims@,
            decreases entries.len() - i,
        {
            names.push(to_chars(entries[i].name.as_str()));
            dims.push(entries[i].dims.clone());
            i += 1;
        }
        let r = BartTensors { names, dims };
        proof {
            assert(r@ =~= directory_view(entries@));
        }
        r
    }

    /// The number of tensors in the directory.
    pub fn len(&self) -> (r: usize)
        requires
            self.wf(),
        ensures
            r == self@.len(),
    {
        self.names.len()
    }

    /// Finds the first entry under the name's canonical string and checks
    /// that its dimensions are the ones the architecture expects.
    pub fn locate(&self, name: &TensorName) -> (r: Result<usize, TensorError>)
        requires
            self.wf(),
        ensures
            r is Ok <==> exists|k: int|
                first_named(self@, canonical(*name), k) && self@[k].1 == expected_dims(*name),
            r matches Ok(k) ==> first_named(self@, canonical(*name), k as int),
            (r matches Err(TensorError::MissingTensor(_))) <==> !has_tensor(self@, canonical(*name)),
            r matches Err(TensorError::MissingTensor(n)) ==> n == *name,
            r matches Err(TensorError::UnexpectedTensorDims(n, got, want)) ==> {
                &&& n == *name
                &&& want@ == expected_dims(*name)
                &&& exists|k: int| first_named(self@, canonical(*name), k) && self@[k].1 == got@
            },
            r matches Err(e) ==> e is MissingTensor || e is UnexpectedTensorDims,
    {
        let key = name.canonical_chars();
        let mut k: usize = 0;
        while k < self.names.len()
            invariant
                k <= self.names@.len(),
                self.wf(),
                key@ == canonical(*name),
                forall|j: int| 0 <= j < k ==> self@[j].0 != canonical(*name),
            decreases self.names.len() - k,
        {
            if chars_eq(&self.names[k], &key) {
                let want = name.expected_shape();
                let got = &self.dims[k];
                proof {
                    assert(first_named(self@, canonical(*name), k as int));
                }
                if !dims_eq(got, &want) {
                    proof {
                        assert forall|j: int|
                            first_named(self@, canonical(*name), j) implies j == k by {
                            if j < k {
                            } else if j > k {
                                assert(self@[k as int].0 == canonical(*name));
                            }
                        }
                    }
                    return Err(TensorError::UnexpectedTensorDims(*name, got.clone(), want));
                }
                return Ok(k);
            }
            k += 1;
        }
        Err(TensorError::MissingTensor(*name))
    }
}

impl BartTensors {
    /// Fetches the tensor `name`: finds it in the directory with the expected
    /// dimensions, hands its canonical name to `read`, which reads its bytes,
    /// and checks what comes back. A name that the directory lacks fails with
    /// `MissingTensor` before `read` is called; no tensor stands in for it.
    pub fn get_tensor<F>(&self, name: &TensorName, read: F) -> (r: Result<CheckedTensor, TensorError>) where
        F: FnOnce(String) -> Result<QTensor, candle_core::Error>,

        requires
            self.wf(),
            forall|s: String| #[trigger] read.requires((s,)),
        ensures
            (r matches Err(TensorError::MissingTensor(_))) <==> !has_tensor(self@, canonical(*name)),
            r matches Err(TensorError::MissingTensor(n)) ==> n == *name,
            forall|k: int|
                first_named(self@, canonical(*name), k) && self@[k].1 != expected_dims(*name)
                    ==> (r matches Err(TensorError::UnexpectedTensorDims(n, got, want)) && n == *name
                    && got@ == self@[k].1 && want@ == expected_dims(*name)),
            r matches Err(e) ==> e is MissingTensor || e is UnexpectedTensorDims
                || e is MismatchedStorage || e is BuildingTensor,
            r matches Ok(t) ==> {
                &&& t.name_spec() == *name
                &&& qshape_of(t.qtensor()) == expected_dims(*name)
                &&& storage_fits(t.qtensor())
                &&& exists|k: int|
                    first_named(self@, canonical(*name), k) && self@[k].1 == expected_dims(*name)
                &&& exists|s: String, q: QTensor|
                    #![trigger read.ensures((s,), Ok::<QTensor, candle_core::Error>(q))]
                    s@ == canonical(*name) && read.ensures((s,), Ok::<QTensor, candle_core::Error>(q))
                        && t.qtensor() == q
            },
    {
        match self.locate(name) {
            Ok(_) => {},
            Err(e) => {
                proof {
                    assert forall|k: int|
                        first_named(self@, canonical(*name), k) && self@[k].1 != expected_dims(
                            *name,
                        ) implies (e matches TensorError::UnexpectedTensorDims(n, got, want) && n
                        == *name && got@ == self@[k].1 && want@ == expected_dims(*name)) by {
                        if let TensorError::UnexpectedTensorDims(n, got, want) = e {
                            let j = choose|j: int|
                                first_named(self@, canonical(*name), j) && self@[j].1 == got@;
                            if j < k {
                                assert(self@[j].0 == canonical(*name));
                            } else if k < j {
                                assert(self@[k].0 == canonical(*name));
                            }
                        } else {
                            assert(has_tensor(self@, canonical(*name)));
                        }
                    }
                }
                return Err(e);
            },
        }
        let key = name.to_canonical_string();
        let ghost asked = key;
        match read(key) {
            Ok(tensor) => {
                let ghost got = tensor;
                let r = CheckedTensor::checked(*name, tensor);
                proof {
                    if r is Ok {
                        assert(read.ensures((asked,), Ok::<QTensor, candle_core::Error>(got)));
                    }
                    assert forall|k: int|
                        first_named(self@, canonical(*name), k) implies self@[k].1 == expected_dims(
                            *name,
                        ) by {
                        let j = choose|j: int|
                            first_named(self@, canonical(*name), j) && self@[j].1 == expected_dims(
                                *name,
                            );
                        if j < k {
                            assert(self@[j].0 == canonical(*name));
                        } else if k < j {
                            assert(self@[k].0 == canonical(*name));
                        }
                    }
                }
                r
            },
            Err(e) => {
                proof {
                    assert forall|k: int|
                        first_named(self@, canonical(*name), k) implies self@[k].1 == expected_dims(
                            *name,
                        ) by {
                        let j = choose|j: int|
                            first_named(self@, canonical(*name), j) && self@[j].1 == expected_dims(
                                *name,
                            );
                        if j < k {
                            assert(self@[j].0 == canonical(*name));
                        } else if k < j {
                            assert(self@[k].0 == canonical(*name));
                        }
                    }
                }
                Err(TensorError::BuildingTensor(e))
            },
        }
    }
}
/// Whether two dimension lists are equal.
pub fn dims_eq(a: &Vec<usize>, b: &Vec<usize>) -> (r: bool)
    ensures
        r == (a@ == b@),
{
    if a.len() != b.len() {
        return false;
    }
    let mut i: usize = 0;
    while i < a.len()
        invariant
            i <= a.len(),
            a.len() == b.len(),
            forall|j: int| 0 <= j < i ==> a@[j] == b@[j],
        decreases a.len() - i,
    {
        if a[i] != b[i] {
            return false;
        }
        i += 1;
    }
    proof {
        assert(a@ =~= b@);
    }
    true
}

/// A quantized tensor whose shape is the one its name calls for.
pub struct CheckedTensor {
    name: TensorName,
    tensor: QTensor,
}

impl CheckedTensor {
    #[verifier::type_invariant]
    spec fn shape_matches_name(&self) -> bool {
        qshape_of(self.tensor) == expected_dims(self.name) && storage_fits(self.tensor)
    }

    pub closed spec fn name_spec(&self) -> TensorName {
        self.name
    }

    pub closed spec fn qtensor(&self) -> QTensor {
        self.tensor
    }

    /// Accepts `tensor` as the tensor `name` when its shape is the expected
    /// one and its storage holds the blocks that shape calls for.
    pub fn checked(name: TensorName, tensor: QTensor) -> (r: Result<Self, TensorError>)
        ensures
            r is Ok <==> qshape_of(tensor) == expected_dims(name) && storage_fits(tensor),
            r matches Ok(t) ==> t.name_spec() == name && t.qtensor() == tensor,
            (r matches Err(TensorError::UnexpectedTensorDims(_, _, _))) <==> qshape_of(tensor)
                != expected_dims(name),
            r matches Err(TensorError::UnexpectedTensorDims(n, got, want)) ==> n == name && got@
                == qshape_of(tensor) && want@ == expected_dims(name),
            (r matches Err(TensorError::MismatchedStorage(_))) <==> qshape_of(tensor)
                == expected_dims(name) && !storage_fits(tensor),
            r matches Err(TensorError::MismatchedStorage(d)) ==> d@ == qshape_of(tensor),
            r matches Err(e) ==> e is UnexpectedTensorDims || e is MismatchedStorage,
    {
        let got = qdims(&tensor);
        let want = name.expected_shape();
        if !dims_eq(&got, &want) {
            return Err(TensorError::UnexpectedTensorDims(name, got, want));
        }
        if !fits_storage(&tensor) {
            return Err(TensorError::MismatchedStorage(got));
        }
        Ok(CheckedTensor { name, tensor })
    }

    pub fn get_tensor(&self) -> (r: &QTensor)
        ensures
            *r == self.qtensor(),
            qshape_of(*r) == expected_dims(self.name_spec()),
            storage_fits(*r),
    {
        proof {
            use_type_invariant(self);
        }
        &self.tensor
    }

    pub fn name(&self) -> (r: TensorName)
        ensures
            r == self.name_spec(),
    {
        self.name
    }

    /// Gives up the quantized tensor.
    pub fn into_qtensor(self) -> (r: QTensor)
        ensures
            r == self.qtensor(),
            qshape_of(r) == expected_dims(self.name_spec()),
            storage_fits(r),
    {
        proof {
            use_type_invariant(&self);
        }
        self.tensor
    }
}

} // verus!
