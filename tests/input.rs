use bart_encoder::input::{FrameError, InputSeq, BART_MAX_SEQ_LEN};
use bart_encoder::tokenizer::WordPieceTokenizer;
use candle_core::{DType, Device, Tensor};

fn vocab() -> WordPieceTokenizer {
    let pairs = [("<s>", 0), ("<pad>", 1), ("</s>", 2), ("<unk>", 3), ("ab", 4), ("\u{120}c", 5)];
    WordPieceTokenizer::from_entries(pairs.iter().map(|(p, i)| (p.to_string(), *i)).collect()).unwrap()
}

#[test]
fn frame_has_fixed_length_and_layout() {
    let tok = vocab();
    let framed = InputSeq::new("ab c".to_string()).tokenize(&tok).format_for_bart().unwrap();
    let embeds_ids = Tensor::arange(0u32, 6u32, &Device::Cpu).unwrap();
    let table = Tensor::zeros((6, 1), DType::F32, &Device::Cpu).unwrap().broadcast_add(&embeds_ids.to_dtype(DType::F32).unwrap().unsqueeze(1).unwrap()).unwrap();
    let embedded = framed.embed(&table).unwrap();
    let pos = Tensor::zeros((BART_MAX_SEQ_LEN, 1), DType::F32, &Device::Cpu).unwrap();
    let positioned = embedded.add_pos_embeds(&pos).unwrap();
    let rows: Vec<f32> = positioned.get_embeds().flatten_all().unwrap().to_vec1().unwrap();
    assert_eq!(rows.len(), BART_MAX_SEQ_LEN);
    assert_eq!(rows[0], 0.0);
    assert_eq!(rows[1], 4.0);
    assert_eq!(rows[2], 5.0);
    assert_eq!(rows[3], 2.0);
    assert!(rows[4..].iter().all(|x| *x == 1.0));
}

#[test]
fn frame_of_longest_input_fits_exactly() {
    let tok = vocab();
    let text = "x".repeat(BART_MAX_SEQ_LEN - 2);
    assert!(InputSeq::new(text).tokenize(&tok).format_for_bart().is_ok());
}

#[test]
fn frame_refuses_too_many_tokens() {
    let tok = vocab();
    let text = "x".repeat(BART_MAX_SEQ_LEN - 1);
    let r = InputSeq::new(text).tokenize(&tok).format_for_bart();
    assert_eq!(r.err(), Some(FrameError::SequenceTooLong(BART_MAX_SEQ_LEN - 1)));
}

#[test]
fn embed_fails_on_id_outside_table() {
    let tok = vocab();
    let framed = InputSeq::new("ab".to_string()).tokenize(&tok).format_for_bart().unwrap();
    let table = Tensor::zeros((3, 2), DType::F32, &Device::Cpu).unwrap();
    assert!(framed.embed(&table).is_err());
}

#[test]
fn position_table_of_other_shape_fails() {
    let tok = vocab();
    let framed = InputSeq::new("ab".to_string()).tokenize(&tok).format_for_bart().unwrap();
    let table = Tensor::zeros((6, 2), DType::F32, &Device::Cpu).unwrap();
    let embedded = framed.embed(&table).unwrap();
    let pos = Tensor::zeros((BART_MAX_SEQ_LEN, 3), DType::F32, &Device::Cpu).unwrap();
    assert!(embedded.add_pos_embeds(&pos).is_err());
}

fn ids(tokens: &[bart_encoder::tokenizer::Token]) -> Vec<u32> {
    tokens.iter().map(|t| t.get_id()).collect()
}

#[test]
fn frame_layout_of_tokens() {
    let tok = vocab();
    let tokenized = InputSeq::new("ab cx".to_string()).tokenize(&tok);
    assert_eq!(ids(tokenized.get_tokens()), vec![4, 5, 3]);
    let framed = tokenized.format_for_bart().unwrap();
    let got = ids(framed.get_tokens());
    assert_eq!(got.len(), BART_MAX_SEQ_LEN);
    assert_eq!(&got[..5], &[0, 4, 5, 3, 2]);
    assert!(got[5..].iter().all(|i| *i == 1));
}

#[test]
fn frame_of_empty_text() {
    let tok = vocab();
    let framed = InputSeq::new(String::new()).tokenize(&tok).format_for_bart().unwrap();
    let got = ids(framed.get_tokens());
    assert_eq!(got.len(), BART_MAX_SEQ_LEN);
    assert_eq!(&got[..2], &[0, 2]);
    assert!(got[2..].iter().all(|i| *i == 1));
}

#[test]
fn embed_takes_the_row_of_each_id() {
    let tok = vocab();
    let framed = InputSeq::new("cab".to_string()).tokenize(&tok).format_for_bart().unwrap();
    let want = ids(framed.get_tokens());
    assert_eq!(framed.frame_ids(), want);
    let table = Tensor::arange(0f32, 12f32, &Device::Cpu).unwrap().reshape((6, 2)).unwrap();
    let embedded = framed.embed(&table).unwrap();
    let pos = Tensor::zeros((BART_MAX_SEQ_LEN, 2), DType::F32, &Device::Cpu).unwrap();
    let rows: Vec<Vec<f32>> = embedded.add_pos_embeds(&pos).unwrap().get_embeds().to_vec2().unwrap();
    assert_eq!(rows.len(), BART_MAX_SEQ_LEN);
    for (row, id) in rows.iter().zip(want) {
        assert_eq!(row, &vec![2.0 * id as f32, 2.0 * id as f32 + 1.0]);
    }
}

#[test]
fn embed_refuses_reserved_id() {
    let pairs = [("<s>", 0), ("<pad>", 1), ("</s>", 2), ("<unk>", 3), ("z", u32::MAX)];
    let tok = WordPieceTokenizer::from_entries(pairs.iter().map(|(p, i)| (p.to_string(), *i)).collect()).unwrap();
    let framed = InputSeq::new("z".to_string()).tokenize(&tok).format_for_bart().unwrap();
    let table = Tensor::zeros((6, 2), DType::F32, &Device::Cpu).unwrap();
    assert!(matches!(
        framed.embed(&table),
        Err(bart_encoder::weights::TensorError::UnexpectedTokenId(u32::MAX))
    ));
}

#[test]
fn positions_are_added_row_by_row() {
    let tok = vocab();
    let tokenized = InputSeq::new("ab".to_string()).tokenize(&tok);
    assert_eq!(tokenized.get_tokenizer().len(), 6);
    let framed = tokenized.format_for_bart().unwrap();
    let table = Tensor::ones((6, 1), DType::F32, &Device::Cpu).unwrap();
    let pos = Tensor::arange(0f32, BART_MAX_SEQ_LEN as f32, &Device::Cpu).unwrap().reshape((BART_MAX_SEQ_LEN, 1)).unwrap();
    let rows: Vec<f32> = framed.embed(&table).unwrap().add_pos_embeds(&pos).unwrap().get_embeds().flatten_all().unwrap().to_vec1().unwrap();
    for (i, x) in rows.iter().enumerate() {
        assert_eq!(*x, i as f32 + 1.0);
    }
}
