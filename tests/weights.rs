use bart_encoder::attn_head::AttnHead;
use bart_encoder::tensor_name::{AttnLayer, AttnType, TensorName, TensorType};
use bart_encoder::tensors::{BartTensors, CheckedTensor, TensorEntry};
use bart_encoder::weights::TensorError;
use candle_core::quantized::{GgmlDType, QTensor};
use candle_core::{DType, Device, Tensor};

fn qzeros(dims: &[usize]) -> QTensor {
    let t = Tensor::zeros(dims, DType::F32, &Device::Cpu).unwrap();
    QTensor::quantize(&t, GgmlDType::F16).unwrap()
}

fn entry(name: &str, dims: &[usize]) -> TensorEntry {
    TensorEntry { name: name.to_string(), dims: dims.to_vec() }
}

fn q_bias(layer: usize) -> TensorName {
    TensorName::SelfAttn(AttnLayer { attn_type: AttnType::Query, tensor_type: TensorType::Bias, layer })
}

#[test]
fn locate_finds_named_tensor() {
    let store = BartTensors::from_directory(vec![
        entry("model.decoder.embed_tokens.weight", &[50264, 1024]),
        entry("model.encoder.layers.0.self_attn.q_proj.bias", &[1024]),
    ]);
    assert_eq!(store.len(), 2);
    assert_eq!(store.locate(&q_bias(0)).unwrap(), 1);
    assert_eq!(store.locate(&TensorName::EmbedTokensWeights).unwrap(), 0);
}

#[test]
fn locate_missing_tensor_is_an_error() {
    let store = BartTensors::from_directory(vec![entry("model.encoder.layers.0.self_attn.q_proj.bias", &[1024])]);
    match store.locate(&q_bias(1)) {
        Err(TensorError::MissingTensor(n)) => assert_eq!(n, q_bias(1)),
        other => panic!("unexpected {other:?}"),
    }
    match store.locate(&TensorName::EmbedPositionWeights) {
        Err(TensorError::MissingTensor(n)) => assert_eq!(n, TensorName::EmbedPositionWeights),
        other => panic!("unexpected {other:?}"),
    }
}

#[test]
fn locate_checks_directory_shape() {
    let store = BartTensors::from_directory(vec![entry("model.decoder.embed_positions.weight", &[1024, 1026])]);
    match store.locate(&TensorName::EmbedPositionWeights) {
        Err(TensorError::UnexpectedTensorDims(n, got, want)) => {
            assert_eq!(n, TensorName::EmbedPositionWeights);
            assert_eq!(got, vec![1024, 1026]);
            assert_eq!(want, vec![1026, 1024]);
        }
        other => panic!("unexpected {other:?}"),
    }
}

#[test]
fn checked_tensor_keeps_expected_shape() {
    let t = CheckedTensor::checked(q_bias(2), qzeros(&[1024])).unwrap();
    assert_eq!(t.name(), q_bias(2));
    assert_eq!(t.get_tensor().shape().dims(), &[1024]);
    match CheckedTensor::checked(q_bias(2), qzeros(&[512])) {
        Err(TensorError::UnexpectedTensorDims(_, got, want)) => {
            assert_eq!(got, vec![512]);
            assert_eq!(want, vec![1024]);
        }
        other => panic!("unexpected {:?}", other.map(|t| t.name())),
    }
}

fn head_tensors(layer: usize) -> Vec<CheckedTensor> {
    AttnHead::tensor_names(layer)
        .into_iter()
        .map(|n| {
            let dims = n.expected_shape();
            CheckedTensor::checked(n, qzeros(&dims)).unwrap()
        })
        .collect()
}

#[test]
fn head_names_in_order() {
    let names = AttnHead::tensor_names(4);
    assert_eq!(names.len(), 6);
    let strings: Vec<String> = names.iter().map(|n| n.to_canonical_string()).collect();
    assert_eq!(
        strings,
        vec![
            "model.encoder.layers.4.self_attn.q_proj.bias",
            "model.encoder.layers.4.self_attn.q_proj.weight",
            "model.encoder.layers.4.self_attn.k_proj.bias",
            "model.encoder.layers.4.self_attn.k_proj.weight",
            "model.encoder.layers.4.self_attn.v_proj.bias",
            "model.encoder.layers.4.self_attn.v_proj.weight",
        ]
    );
}

#[test]
fn head_from_six_tensors() {
    let head = AttnHead::new(1, head_tensors(1)).unwrap();
    assert_eq!(head.get_q().bias.shape().dims(), &[1024]);
    assert_eq!(head.get_k().weights.shape().dims(), &[1024, 1024]);
    assert_eq!(head.get_v().weights.shape().dims(), &[1024, 1024]);
}

#[test]
fn head_refuses_wrong_tensors() {
    let mut five = head_tensors(0);
    five.pop();
    assert!(matches!(AttnHead::new(0, five), Err(TensorError::UnexpectedTensorCount(5))));
    match AttnHead::new(2, head_tensors(0)) {
        Err(TensorError::MissingTensor(n)) => assert_eq!(n, q_bias(2)),
        _ => panic!("expected a missing tensor"),
    }
}

fn empty_storage(dims: &[usize]) -> QTensor {
    let storage = candle_core::quantized::QStorage::Cpu(Box::new(Vec::<f32>::new()));
    QTensor::new(storage, dims).unwrap()
}

#[test]
fn checked_tensor_refuses_short_storage() {
    match CheckedTensor::checked(q_bias(0), empty_storage(&[1024])) {
        Err(TensorError::MismatchedStorage(d)) => assert_eq!(d, vec![1024]),
        other => panic!("unexpected {:?}", other.map(|t| t.name())),
    }
}

#[test]
fn get_tensor_missing_name_never_reads() {
    let store = BartTensors::from_directory(vec![entry("model.encoder.layers.0.self_attn.q_proj.bias", &[1024])]);
    let mut called = false;
    let r = store.get_tensor(&q_bias(99), |_| {
        called = true;
        Ok(qzeros(&[1024]))
    });
    assert!(matches!(r, Err(TensorError::MissingTensor(n)) if n == q_bias(99)));
    assert!(!called);
}

#[test]
fn get_tensor_reads_under_canonical_name() {
    let store = BartTensors::from_directory(vec![entry("model.encoder.layers.0.self_attn.q_proj.bias", &[1024])]);
    let mut asked = String::new();
    let t = store
        .get_tensor(&q_bias(0), |key| {
            asked = key;
            Ok(qzeros(&[1024]))
        })
        .unwrap();
    assert_eq!(asked, "model.encoder.layers.0.self_attn.q_proj.bias");
    assert_eq!(t.name(), q_bias(0));
    assert!(matches!(
        store.get_tensor(&q_bias(0), |_| Ok(qzeros(&[512]))),
        Err(TensorError::UnexpectedTensorDims(_, _, _))
    ));
}

#[test]
fn checked_tensor_accepts_block_quantized_storage() {
    let t = Tensor::ones((1024, 1024), DType::F32, &Device::Cpu).unwrap();
    for dtype in [GgmlDType::Q4_0, GgmlDType::Q8_0, GgmlDType::Q4K, GgmlDType::Q6K, GgmlDType::F32] {
        let q = QTensor::quantize(&t, dtype).unwrap();
        let name = TensorName::SelfAttn(AttnLayer { attn_type: AttnType::Key, tensor_type: TensorType::Weight, layer: 0 });
        assert!(CheckedTensor::checked(name, q).is_ok(), "{dtype:?}");
    }
}
