use bart_encoder::attn::stack_1d_tensor;
use bart_encoder::attn_head::AttnHead;
use bart_encoder::input::{InputSeq, BART_MAX_SEQ_LEN};
use bart_encoder::tensors::CheckedTensor;
use bart_encoder::tokenizer::WordPieceTokenizer;
use bart_encoder::weights::TensorError;
use candle_core::quantized::{GgmlDType, QTensor};
use candle_core::{DType, Device, Tensor};

#[test]
fn test_stack() {
    let device = Device::Cpu;
    let t = Tensor::from_iter((0..10).map(|i| i as f32), &device).unwrap();
    let t = QTensor::quantize(&t, GgmlDType::F16).unwrap();
    let stacked = stack_1d_tensor(&vec![10, 10], &t, &device).unwrap();
    assert_eq!(stacked.dims(), &[10, 10]);
    let rows: Vec<Vec<f32>> = stacked.to_dtype(DType::F32).unwrap().to_vec2().unwrap();
    let expected: Vec<f32> = (0..10).map(|i| i as f32).collect();
    for row in rows {
        assert_eq!(row, expected);
    }
}

#[test]
fn stack_refuses_bias_of_other_length() {
    let device = Device::Cpu;
    let t = Tensor::from_iter((0..10).map(|i| i as f32), &device).unwrap();
    let t = QTensor::quantize(&t, GgmlDType::F16).unwrap();
    match stack_1d_tensor(&vec![10, 5], &t, &device) {
        Err(TensorError::UnexpectedBiasDims(b, s)) => {
            assert_eq!(b, vec![10]);
            assert_eq!(s, vec![10, 5]);
        }
        other => panic!("unexpected {other:?}"),
    }
    assert!(matches!(stack_1d_tensor(&vec![], &t, &device), Err(TensorError::UnexpectedBiasDims(_, _))));
}

fn quantized(t: &Tensor) -> QTensor {
    QTensor::quantize(t, GgmlDType::F16).unwrap()
}

#[test]
fn encodes_framed_text_through_one_head() {
    let device = Device::Cpu;
    let pairs = [("<s>", 0), ("<pad>", 1), ("</s>", 2), ("<unk>", 3), ("The", 4), ("\u{120}model", 5)];
    let tok = WordPieceTokenizer::from_entries(pairs.iter().map(|(p, i)| (p.to_string(), *i)).collect()).unwrap();
    let token_table = Tensor::ones((6, 1024), DType::F32, &device).unwrap();
    let pos_table = Tensor::zeros((BART_MAX_SEQ_LEN, 1024), DType::F32, &device).unwrap();
    let input = InputSeq::new("The model".to_string())
        .tokenize(&tok)
        .format_for_bart()
        .unwrap()
        .embed(&token_table)
        .unwrap()
        .add_pos_embeds(&pos_table)
        .unwrap();
    let tensors: Vec<CheckedTensor> = AttnHead::tensor_names(0)
        .into_iter()
        .map(|n| {
            let dims = n.expected_shape();
            let t = if dims.len() == 1 {
                Tensor::ones(dims, DType::F32, &device).unwrap()
            } else {
                Tensor::zeros(dims, DType::F32, &device).unwrap()
            };
            CheckedTensor::checked(n, quantized(&t)).unwrap()
        })
        .collect();
    let head = AttnHead::new(0, tensors).unwrap();
    let encoded = head.encode(input, &device).unwrap();
    for t in [encoded.state.get_q(), encoded.state.get_k(), encoded.state.get_v()] {
        assert_eq!(t.dims(), &[BART_MAX_SEQ_LEN, 1024]);
        let first: Vec<f32> = t.get(0).unwrap().to_dtype(DType::F32).unwrap().to_vec1().unwrap();
        assert!(first.iter().all(|x| *x == 1.0));
    }
}

#[test]
fn stack_refuses_short_storage() {
    let storage = candle_core::quantized::QStorage::Cpu(Box::new(Vec::<f32>::new()));
    let t = QTensor::new(storage, (10,)).unwrap();
    match stack_1d_tensor(&vec![10, 10], &t, &Device::Cpu) {
        Err(TensorError::MismatchedStorage(d)) => assert_eq!(d, vec![10]),
        other => panic!("unexpected {other:?}"),
    }
}

#[test]
fn encode_refuses_input_of_other_width() {
    let device = Device::Cpu;
    let pairs = [("<s>", 0), ("<pad>", 1), ("</s>", 2), ("<unk>", 3)];
    let tok = WordPieceTokenizer::from_entries(pairs.iter().map(|(p, i)| (p.to_string(), *i)).collect()).unwrap();
    let input = InputSeq::new(String::new())
        .tokenize(&tok)
        .format_for_bart()
        .unwrap()
        .embed(&Tensor::ones((4, 8), DType::F32, &device).unwrap())
        .unwrap()
        .add_pos_embeds(&Tensor::zeros((BART_MAX_SEQ_LEN, 8), DType::F32, &device).unwrap())
        .unwrap();
    let tensors: Vec<CheckedTensor> = AttnHead::tensor_names(0)
        .into_iter()
        .map(|n| {
            let t = Tensor::zeros(n.expected_shape(), DType::F32, &device).unwrap();
            CheckedTensor::checked(n, quantized(&t)).unwrap()
        })
        .collect();
    let head = AttnHead::new(0, tensors).unwrap();
    match head.encode(input, &device) {
        Err(TensorError::UnexpectedInputDims(d)) => assert_eq!(d, vec![BART_MAX_SEQ_LEN, 8]),
        Err(e) => panic!("unexpected {e:?}"),
        Ok(_) => panic!("expected an error"),
    }
}
