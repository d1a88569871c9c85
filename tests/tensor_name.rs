use bart_encoder::tensor_name::{AttnLayer, AttnType, OutProjLayer, TensorName, TensorType};

#[test]
fn canonical_strings() {
    assert_eq!(
        TensorName::EmbedPositionWeights.to_canonical_string(),
        "model.decoder.embed_positions.weight"
    );
    assert_eq!(
        TensorName::EmbedTokensWeights.to_canonical_string(),
        "model.decoder.embed_tokens.weight"
    );
    let q = TensorName::SelfAttn(AttnLayer {
        attn_type: AttnType::Query,
        tensor_type: TensorType::Bias,
        layer: 0,
    });
    assert_eq!(q.to_canonical_string(), "model.encoder.layers.0.self_attn.q_proj.bias");
    let v = TensorName::SelfAttn(AttnLayer {
        attn_type: AttnType::Value,
        tensor_type: TensorType::Weight,
        layer: 11,
    });
    assert_eq!(v.to_canonical_string(), "model.encoder.layers.11.self_attn.v_proj.weight");
    let k = TensorName::SelfAttn(AttnLayer {
        attn_type: AttnType::Key,
        tensor_type: TensorType::Weight,
        layer: 305,
    });
    assert_eq!(k.to_canonical_string(), "model.encoder.layers.305.self_attn.k_proj.weight");
    let o = TensorName::OutProj(OutProjLayer { tensor_type: TensorType::Bias, layer: 7 });
    assert_eq!(o.to_canonical_string(), "model.encoder.layers.7.self_attn.out_proj.bias");
}

#[test]
fn expected_shapes() {
    assert_eq!(TensorName::EmbedTokensWeights.expected_shape(), vec![50264, 1024]);
    assert_eq!(TensorName::EmbedPositionWeights.expected_shape(), vec![1026, 1024]);
    for layer in 0..12 {
        for a in [AttnType::Query, AttnType::Key, AttnType::Value] {
            let bias = TensorName::SelfAttn(AttnLayer { attn_type: a, tensor_type: TensorType::Bias, layer });
            let weight =
                TensorName::SelfAttn(AttnLayer { attn_type: a, tensor_type: TensorType::Weight, layer });
            assert_eq!(bias.expected_shape(), vec![1024]);
            assert_eq!(weight.expected_shape(), vec![1024, 1024]);
        }
    }
    let o = TensorName::OutProj(OutProjLayer { tensor_type: TensorType::Weight, layer: 3 });
    assert_eq!(o.expected_shape(), vec![1024, 1024]);
}

#[test]
fn parses_canonical_strings() {
    let names = [
        TensorName::EmbedPositionWeights,
        TensorName::EmbedTokensWeights,
        TensorName::SelfAttn(AttnLayer { attn_type: AttnType::Key, tensor_type: TensorType::Bias, layer: 0 }),
        TensorName::SelfAttn(AttnLayer { attn_type: AttnType::Value, tensor_type: TensorType::Weight, layer: 11 }),
        TensorName::OutProj(OutProjLayer { tensor_type: TensorType::Weight, layer: 12345 }),
    ];
    for n in names {
        assert_eq!(TensorName::from_canonical_string(&n.to_canonical_string()), Some(n));
    }
}

#[test]
fn refuses_other_strings() {
    for s in [
        "",
        "model.encoder.layers.",
        "model.encoder.layers.01.self_attn.q_proj.bias",
        "model.encoder.layers.1.self_attn.q_proj.bia",
        "model.encoder.layers.1.self_attn.o_proj.bias",
        "model.encoder.layers.99999999999999999999999.self_attn.q_proj.bias",
        "model.decoder.embed_tokens.weight.",
    ] {
        assert_eq!(TensorName::from_canonical_string(s), None, "{s}");
    }
}
