//! A verified input pipeline for a BART-style encoder: vocabulary and
//! greedy longest-match tokenization, fixed-length framing, a directory of
//! named quantized tensors, and the per-layer query/key/value projections.
pub mod attn;
pub mod attn_head;
pub mod input;
pub mod tensor_name;
pub mod tensor_ops;
pub mod tensors;
pub mod text;
pub mod tokenizer;
pub mod weights;
