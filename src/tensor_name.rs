//! Structured names of the model's tensors, their canonical dotted strings
//! and the shapes the architecture expects of them.
use vstd::prelude::*;

use crate::text::{append_chars, chars_eq, from_chars, to_chars};

verus! {

/// Width of every hidden state.
pub const HIDDEN_DIM: usize = 1024;

/// Number of rows of the token-embedding table.
pub const VOCAB_SIZE: usize = 50264;

/// Number of rows of the position-embedding table.
pub const MAX_POSITIONS: usize = 1026;

/// Whether a per-layer tensor is the bias vector or the weight matrix.
#[derive(Clone, Copy, Debug, PartialEq, Eq, Structural)]
pub enum TensorType {
    Bias,
    Weight,
}

/// The projection of a self-attention block.
#[derive(Clone, Copy, Debug, PartialEq, Eq, Structural)]
pub enum AttnType {
    Query,
    Key,
    Value,
}

/// One query, key or value projection tensor of one encoder layer.
#[derive(Clone, Copy, Debug, PartialEq, Eq, Structural)]
pub struct AttnLayer {
    pub attn_type: AttnType,
    pub tensor_type: TensorType,
    pub layer: usize,
}

/// The output projection tensor of one encoder layer's self-attention.
#[derive(Clone, Copy, Debug, PartialEq, Eq, Structural)]
pub struct OutProjLayer {
    pub tensor_type: TensorType,
    pub layer: usize,
}

/// The name of a tensor stored in the model container.
#[derive(Clone, Copy, Debug, PartialEq, Eq, Structural)]
pub enum TensorName {
    EmbedPositionWeights,
    EmbedTokensWeights,
    SelfAttn(AttnLayer),
    OutProj(OutProjLayer),
}

/// The character of a decimal digit.
pub open spec fn digit_char(d: nat) -> char {
    if d == 0 {
        '0'
    } else if d == 1 {
        '1'
    } else if d == 2 {
        '2'
    } else if d == 3 {
        '3'
    } else if d == 4 {
        '4'
    } else if d == 5 {
        '5'
    } else if d == 6 {
        '6'
    } else if d == 7 {
        '7'
    } else if d == 8 {
        '8'
    } else {
        '9'
    }
}

/// The decimal rendering of `n`, without leading zeros.
pub open spec fn decimal(n: nat) -> Seq<char>
    decreases n,
{
    if n < 10 {
        seq![digit_char(n)]
    } else {
        decimal(n / 10).push(digit_char(n % 10))
    }
}

pub open spec fn tensor_type_str(t: TensorType) -> Seq<char> {
    match t {
        TensorType::Bias => "bias"@,
        TensorType::Weight => "weight"@,
    }
}

pub open spec fn attn_type_str(a: AttnType) -> Seq<char> {
    match a {
        AttnType::Query => "q_proj"@,
        AttnType::Key => "k_proj"@,
        AttnType::Value => "v_proj"@,
    }
}

/// The path of a layer's self-attention block, up to and including its final dot.
pub open spec fn layer_prefix(layer: nat) -> Seq<char> {
    "model.encoder.layers."@ + decimal(layer) + ".self_attn."@
}

/// The canonical dotted string under which the container stores the tensor.
pub open spec fn canonical(n: TensorName) -> Seq<char> {
    match n {
        TensorName::EmbedPositionWeights => "model.decoder.embed_positions.weight"@,
        TensorName::EmbedTokensWeights => "model.decoder.embed_tokens.weight"@,
        TensorName::SelfAttn(a) => layer_prefix(a.layer as nat) + attn_type_str(a.attn_type) + "."@
            + tensor_type_str(a.tensor_type),
        TensorName::OutProj(o) => layer_prefix(o.layer as nat) + "out_proj."@ + tensor_type_str(
            o.tensor_type,
        ),
    }
}

/// The shape of a per-layer tensor: a vector for a bias, a square matrix for a weight.
pub open spec fn layer_shape(t: TensorType) -> Seq<usize> {
    match t {
        TensorType::Bias => seq![HIDDEN_DIM],
        TensorType::Weight => seq![HIDDEN_DIM, HIDDEN_DIM],
    }
}

/// The shape that the architecture gives the named tensor.
pub open spec fn expected_dims(n: TensorName) -> Seq<usize> {
    match n {
        TensorName::EmbedPositionWeights => seq![MAX_POSITIONS, HIDDEN_DIM],
        TensorName::EmbedTokensWeights => seq![VOCAB_SIZE, HIDDEN_DIM],
        TensorName::SelfAttn(a) => layer_shape(a.tensor_type),
        TensorName::OutProj(o) => layer_shape(o.tensor_type),
    }
}

fn digit(d: usize) -> (c: char)
    requires
        d < 10,
    ensures
        c == digit_char(d as nat),
{
    if d == 0 {
        '0'
    } else if d == 1 {
        '1'
    } else if d == 2 {
        '2'
    } else if d == 3 {
        '3'
    } else if d == 4 {
        '4'
    } else if d == 5 {
        '5'
    } else if d == 6 {
        '6'
    } else if d == 7 {
        '7'
    } else if d == 8 {
        '8'
    } else {
        '9'
    }
}

/// Appends the decimal rendering of `n` to `out`.
fn push_decimal(out: &mut Vec<char>, n: usize)
    ensures
        final(out)@ == old(out)@ + decimal(n as nat),
    decreases n,
{
    if n >= 10 {
        push_decimal(out, n / 10);
    }
    out.push(digit(n % 10));
    proof {
        if n >= 10 {
            assert(old(out)@ + decimal(n as nat) == (old(out)@ + decimal((n / 10) as nat)).push(
                digit_char((n % 10) as nat),
            ));
        } else {
            assert(old(out)@ + decimal(n as nat) == old(out)@.push(digit_char(n as nat)));
        }
    }
}

fn push_tensor_type(out: &mut Vec<char>, t: TensorType)
    ensures
        final(out)@ == old(out)@ + tensor_type_str(t),
{
    match t {
        TensorType::Bias => append_chars(out, "bias"),
        TensorType::Weight => append_chars(out, "weight"),
    }
}

fn push_layer_prefix(out: &mut Vec<char>, layer: usize)
    ensures
        final(out)@ == old(out)@ + layer_prefix(layer as nat),
{
    append_chars(out, "model.encoder.layers.");
    push_decimal(out, layer);
    append_chars(out, ".self_attn.");
    proof {
        assert(final(out)@ == old(out)@ + layer_prefix(layer as nat));
    }
}

impl TensorName {
    /// The canonical name as characters.
    pub fn canonical_chars(&self) -> (r: Vec<char>)
        ensures
            r@ == canonical(*self),
    {
        let mut out: Vec<char> = Vec::new();
        match self {
            TensorName::EmbedPositionWeights => append_chars(
                &mut out,
                "model.decoder.embed_positions.weight",
            ),
            TensorName::EmbedTokensWeights => append_chars(
                &mut out,
                "model.decoder.embed_tokens.weight",
            ),
            TensorName::SelfAttn(a) => {
                push_layer_prefix(&mut out, a.layer);
                match a.attn_type {
                    AttnType::Query => append_chars(&mut out, "q_proj"),
                    AttnType::Key => append_chars(&mut out, "k_proj"),
                    AttnType::Value => append_chars(&mut out, "v_proj"),
                }
                append_chars(&mut out, ".");
                push_tensor_type(&mut out, a.tensor_type);
            },
            TensorName::OutProj(o) => {
                push_layer_prefix(&mut out, o.layer);
                append_chars(&mut out, "out_proj.");
                push_tensor_type(&mut out, o.tensor_type);
            },
        }
        proof {
            assert(out@ == canonical(*self));
        }
        out
    }

    /// The canonical dotted string under which the container stores this tensor.
    pub fn to_canonical_string(&self) -> (r: String)
        ensures
            r@ == canonical(*self),
    {
        from_chars(&self.canonical_chars())
    }

    /// The shape the architecture gives this tensor.
    pub fn expected_shape(&self) -> (r: Vec<usize>)
        ensures
            r@ == expected_dims(*self),
    {
        let tt = match self {
            TensorName::EmbedPositionWeights => {
                return vec![MAX_POSITIONS, HIDDEN_DIM];
            },
            TensorName::EmbedTokensWeights => {
                return vec![VOCAB_SIZE, HIDDEN_DIM];
            },
            TensorName::SelfAttn(a) => a.tensor_type,
            TensorName::OutProj(o) => o.tensor_type,
        };
        match tt {
            TensorType::Bias => vec![HIDDEN_DIM],
            TensorType::Weight => vec![HIDDEN_DIM, HIDDEN_DIM],
        }
    }
}

pub open spec fn is_digit(c: char) -> bool {
    c == '0' || c == '1' || c == '2' || c == '3' || c == '4' || c == '5' || c == '6' || c == '7'
        || c == '8' || c == '9'
}

pub open spec fn digit_value(c: char) -> nat {
    if c == '1' {
        1
    } else if c == '2' {
        2
    } else if c == '3' {
        3
    } else if c == '4' {
        4
    } else if c == '5' {
        5
    } else if c == '6' {
        6
    } else if c == '7' {
        7
    } else if c == '8' {
        8
    } else if c == '9' {
        9
    } else {
        0
    }
}

/// The number that a string of decimal digits denotes.
pub open spec fn digits_value(s: Seq<char>) -> nat
    decreases s.len(),
{
    if s.len() == 0 {
        0
    } else {
        digits_value(s.drop_last()) * 10 + digit_value(s.last())
    }
}

pub open spec fn all_digits(s: Seq<char>) -> bool {
    forall|j: int| 0 <= j < s.len() ==> is_digit(#[trigger] s[j])
}

/// The names that carry a layer number.
pub open spec fn is_layered(n: TensorName) -> bool {
    n is SelfAttn || n is OutProj
}

pub open spec fn layer_of(n: TensorName) -> usize {
    match n {
        TensorName::SelfAttn(a) => a.layer,
        TensorName::OutProj(o) => o.layer,
        _ => 0,
    }
}

proof fn lemma_digit_char(d: nat)
    requires
        d < 10,
    ensures
        is_digit(digit_char(d)),
        digit_value(digit_char(d)) == d,
{
}

/// A decimal rendering is all digits, and denotes its number.
proof fn lemma_decimal(n: nat)
    ensures
        decimal(n).len() >= 1,
        all_digits(decimal(n)),
        digits_value(decimal(n)) == n,
    decreases n,
{
    if n < 10 {
        lemma_digit_char(n);
        let d = seq![digit_char(n)];
        assert(d.drop_last() =~= Seq::<char>::empty());
        assert(digits_value(Seq::<char>::empty()) == 0);
        assert(digits_value(d) == digits_value(d.drop_last()) * 10 + digit_value(d.last()));
    } else {
        lemma_decimal(n / 10);
        lemma_digit_char(n % 10);
        let d = decimal(n);
        assert(d.drop_last() =~= decimal(n / 10));
        assert(d.last() == digit_char(n % 10));
        assert(digits_value(d) == digits_value(d.drop_last()) * 10 + digit_value(d.last()));
        assert(n == (n / 10) * 10 + n % 10);
    }
}

/// A prefix of a digit string denotes no more than the whole.
proof fn lemma_prefix_value(s: Seq<char>, j: int)
    requires
        0 <= j <= s.len(),
    ensures
        digits_value(s.take(j)) <= digits_value(s),
    decreases s.len() - j,
{
    if j < s.len() {
        lemma_prefix_value(s, j + 1);
        assert(s.take(j + 1).drop_last() =~= s.take(j));
    } else {
        assert(s.take(j) =~= s);
    }
}

/// Where a layered name's string holds its layer number.
proof fn lemma_layer_digits(n: TensorName)
    requires
        is_layered(n),
    ensures
        ({
            let c = canonical(n);
            let d = decimal(layer_of(n) as nat);
            &&& c.len() > 21 + d.len()
            &&& c.subrange(21, 21 + d.len() as int) == d
            &&& c[21 + d.len() as int] == '.'
        }),
{
    reveal_strlit("model.encoder.layers.");
    reveal_strlit(".self_attn.");
    let c = canonical(n);
    let d = decimal(layer_of(n) as nat);
    let p = layer_prefix(layer_of(n) as nat);
    lemma_decimal(layer_of(n) as nat);
    assert(c.subrange(0, p.len() as int) == p);
    assert(p.subrange(21, 21 + d.len() as int) =~= d);
    assert(p[21 + d.len() as int] == '.');
}

fn is_digit_exec(c: char) -> (r: bool)
    ensures
        r == is_digit(c),
{
    c == '0' || c == '1' || c == '2' || c == '3' || c == '4' || c == '5' || c == '6' || c == '7'
        || c == '8' || c == '9'
}

fn digit_value_exec(c: char) -> (r: usize)
    ensures
        r == digit_value(c),
        r < 10,
{
    if c == '1' {
        1
    } else if c == '2' {
        2
    } else if c == '3' {
        3
    } else if c == '4' {
        4
    } else if c == '5' {
        5
    } else if c == '6' {
        6
    } else if c == '7' {
        7
    } else if c == '8' {
        8
    } else if c == '9' {
        9
    } else {
        0
    }
}

/// The layer number that a layered name's string would hold at its place.
fn layer_number(chars: &Vec<char>) -> (r: Option<usize>)
    ensures
        forall|n: TensorName|
            is_layered(n) && canonical(n) == chars@ ==> r == Some(layer_of(n)),
{
    let start: usize = 21;
    if chars.len() <= start {
        proof {
            assert forall|n: TensorName| is_layered(n) && canonical(n) == chars@ implies false by {
                lemma_layer_digits(n);
            }
        }
        return None;
    }
    let mut i: usize = start;
    let mut layer: usize = 0;
    proof {
        assert(chars@.subrange(21, 21) =~= Seq::<char>::empty());
    }
    while i < chars.len() && is_digit_exec(chars[i])
        invariant
            start == 21,
            start <= i <= chars.len(),
            all_digits(chars@.subrange(21, i as int)),
            layer == digits_value(chars@.subrange(21, i as int)),
        decreases chars.len() - i,
    {
        let d = digit_value_exec(chars[i]);
        if layer > (usize::MAX - d) / 10 {
            proof {
                assert(layer * 10 + d > usize::MAX) by (nonlinear_arith)
                    requires
                        layer > (usize::MAX - d) / 10,
                        d < 10,
                ;
                assert forall|n: TensorName| is_layered(n) && canonical(n) == chars@ implies false by {
                    lemma_layer_digits(n);
                    let dd = decimal(layer_of(n) as nat);
                    lemma_decimal(layer_of(n) as nat);
                    if i >= 21 + dd.len() {
                        assert(chars@.subrange(21, i as int)[dd.len() as int] == '.');
                    }
                    let k = i + 1 - 21;
                    assert(chars@.subrange(21, i + 1) =~= dd.take(k));
                    assert(chars@.subrange(21, i + 1).drop_last() =~= chars@.subrange(21, i as int));
                    lemma_prefix_value(dd, k);
                }
            }
            return None;
        }
        layer = layer * 10 + d;
        i += 1;
        proof {
            assert(chars@.subrange(21, i as int).drop_last() =~= chars@.subrange(21, i - 1));
        }
    }
    proof {
        assert forall|n: TensorName| is_layered(n) && canonical(n) == chars@ implies layer
            == layer_of(n) by {
            lemma_layer_digits(n);
            let dd = decimal(layer_of(n) as nat);
            lemma_decimal(layer_of(n) as nat);
            if i > 21 + dd.len() {
                assert(chars@.subrange(21, i as int)[dd.len() as int] == '.');
            }
            if i < 21 + dd.len() {
                assert(is_digit(dd[i - 21]));
            }
            assert(chars@.subrange(21, i as int) =~= dd);
        }
    }
    Some(layer)
}

/// Every name that carries the layer `layer`.
fn names_of_layer(layer: usize) -> (r: Vec<TensorName>)
    ensures
        forall|n: TensorName| is_layered(n) && layer_of(n) == layer ==> r@.contains(n),
{
    let r = vec![
        TensorName::SelfAttn(AttnLayer { attn_type: AttnType::Query, tensor_type: TensorType::Bias, layer }),
        TensorName::SelfAttn(AttnLayer { attn_type: AttnType::Query, tensor_type: TensorType::Weight, layer }),
        TensorName::SelfAttn(AttnLayer { attn_type: AttnType::Key, tensor_type: TensorType::Bias, layer }),
        TensorName::SelfAttn(AttnLayer { attn_type: AttnType::Key, tensor_type: TensorType::Weight, layer }),
        TensorName::SelfAttn(AttnLayer { attn_type: AttnType::Value, tensor_type: TensorType::Bias, layer }),
        TensorName::SelfAttn(AttnLayer { attn_type: AttnType::Value, tensor_type: TensorType::Weight, layer }),
        TensorName::OutProj(OutProjLayer { tensor_type: TensorType::Bias, layer }),
        TensorName::OutProj(OutProjLayer { tensor_type: TensorType::Weight, layer }),
    ];
    proof {
        assert forall|n: TensorName| is_layered(n) && layer_of(n) == layer implies r@.contains(n) by {
            match n {
                TensorName::SelfAttn(a) => {
                    match (a.attn_type, a.tensor_type) {
                        (AttnType::Query, TensorType::Bias) => assert(r@[0] == n),
                        (AttnType::Query, TensorType::Weight) => assert(r@[1] == n),
                        (AttnType::Key, TensorType::Bias) => assert(r@[2] == n),
                        (AttnType::Key, TensorType::Weight) => assert(r@[3] == n),
                        (AttnType::Value, TensorType::Bias) => assert(r@[4] == n),
                        (AttnType::Value, TensorType::Weight) => assert(r@[5] == n),
                    }
                },
                TensorName::OutProj(o) => {
                    match o.tensor_type {
                        TensorType::Bias => assert(r@[6] == n),
                        TensorType::Weight => assert(r@[7] == n),
                    }
                },
                _ => {},
            }
        }
    }
    r
}

impl TensorName {
    /// The name whose canonical string is `s`, if there is one.
    pub fn from_canonical_string(s: &str) -> (r: Option<TensorName>)
        ensures
            r matches Some(n) ==> canonical(n) == s@,
            r is None ==> forall|n: TensorName| canonical(n) != s@,
            forall|n: TensorName| canonical(n) == s@ ==> r == Some(n),
    {
        let chars = to_chars(s);
        let mut candidates: Vec<TensorName> = vec![
            TensorName::EmbedPositionWeights,
            TensorName::EmbedTokensWeights,
        ];
        let layered = match layer_number(&chars) {
            Some(layer) => names_of_layer(layer),
            None => Vec::new(),
        };
        candidates.append(&mut layered.clone());
        proof {
            assert forall|n: TensorName| canonical(n) == s@ implies candidates@.contains(n) by {
                if is_layered(n) {
                    let j = choose|j: int| 0 <= j < layered@.len() && layered@[j] == n;
                    assert(candidates@[2 + j] == n);
                } else if n is EmbedPositionWeights {
                    assert(candidates@[0] == n);
                } else {
                    assert(candidates@[1] == n);
                }
            }
        }
        let mut i: usize = 0;
        while i < candidates.len()
            invariant
                i <= candidates@.len(),
                chars@ == s@,
                forall|j: int| 0 <= j < i ==> canonical(#[trigger] candidates@[j]) != s@,
            decreases candidates.len() - i,
        {
            if chars_eq(&candidates[i].canonical_chars(), &chars) {
                proof {
                    assert forall|n: TensorName| canonical(n) == s@ implies candidates@[i as int]
                        == n by {
                        lemma_canonical_injective(candidates@[i as int], n);
                    }
                }
                return Some(candidates[i]);
            }
            i += 1;
        }
        None
    }
}

/// The part of a layered name's string after its layer's prefix.
pub open spec fn layer_suffix(n: TensorName) -> Seq<char> {
    match n {
        TensorName::SelfAttn(a) => attn_type_str(a.attn_type) + "."@ + tensor_type_str(a.tensor_type),
        TensorName::OutProj(o) => "out_proj."@ + tensor_type_str(o.tensor_type),
        _ => seq![],
    }
}

/// The first character and the length of a suffix tell the name's kind.
proof fn lemma_suffix_key(n: TensorName)
    requires
        is_layered(n),
    ensures
        layer_suffix(n).len() > 0,
        match n {
            TensorName::SelfAttn(a) => {
                &&& layer_suffix(n)[0] == match a.attn_type {
                    AttnType::Query => 'q',
                    AttnType::Key => 'k',
                    AttnType::Value => 'v',
                }
                &&& layer_suffix(n).len() == match a.tensor_type {
                    TensorType::Bias => 11nat,
                    TensorType::Weight => 13nat,
                }
            },
            TensorName::OutProj(o) => {
                &&& layer_suffix(n)[0] == 'o'
                &&& layer_suffix(n).len() == match o.tensor_type {
                    TensorType::Bias => 13nat,
                    TensorType::Weight => 15nat,
                }
            },
            _ => true,
        },
{
    reveal_strlit("q_proj");
    reveal_strlit("k_proj");
    reveal_strlit("v_proj");
    reveal_strlit(".");
    reveal_strlit("bias");
    reveal_strlit("weight");
    reveal_strlit("out_proj.");
}

/// A layered name's string reads "encoder" where the embeddings' read "decoder".
proof fn lemma_layered_char(n: TensorName)
    requires
        is_layered(n),
    ensures
        canonical(n)[6] == 'e',
{
    reveal_strlit("model.encoder.layers.");
    lemma_layer_digits(n);
    let p = layer_prefix(layer_of(n) as nat);
    assert(p[6] == 'e');
    assert(canonical(n)[6] == p[6]);
}

proof fn lemma_embedding_char(n: TensorName)
    requires
        !is_layered(n),
    ensures
        canonical(n).len() > 6,
        canonical(n)[6] == 'd',
        canonical(n).len() == if n is EmbedPositionWeights { 36nat } else { 33nat },
{
    reveal_strlit("model.decoder.embed_positions.weight");
    reveal_strlit("model.decoder.embed_tokens.weight");
}

/// Two layered names with one string have one layer.
proof fn lemma_same_layer(m: TensorName, n: TensorName)
    requires
        is_layered(m),
        is_layered(n),
        canonical(m) == canonical(n),
    ensures
        layer_of(m) == layer_of(n),
{
    let c = canonical(m);
    lemma_layer_digits(m);
    lemma_layer_digits(n);
    let dm = decimal(layer_of(m) as nat);
    let dn = decimal(layer_of(n) as nat);
    lemma_decimal(layer_of(m) as nat);
    lemma_decimal(layer_of(n) as nat);
    if dm.len() < dn.len() {
        assert(c[21 + dm.len() as int] == c.subrange(21, 21 + dn.len() as int)[dm.len() as int]);
    } else if dn.len() < dm.len() {
        assert(c[21 + dn.len() as int] == c.subrange(21, 21 + dm.len() as int)[dn.len() as int]);
    }
    assert(dm == dn);
}

/// A layered name's string is its layer's prefix and then its suffix.
proof fn lemma_split(n: TensorName)
    requires
        is_layered(n),
    ensures
        canonical(n) == layer_prefix(layer_of(n) as nat) + layer_suffix(n),
{
    let p = layer_prefix(layer_of(n) as nat);
    match n {
        TensorName::SelfAttn(a) => {
            assert(canonical(n) =~= p + layer_suffix(n));
        },
        TensorName::OutProj(o) => {
            assert(canonical(n) =~= p + layer_suffix(n));
        },
        _ => {},
    }
}

/// Distinct names have distinct canonical strings.
pub proof fn lemma_canonical_injective(m: TensorName, n: TensorName)
    requires
        canonical(m) == canonical(n),
    ensures
        m == n,
{
    if is_layered(m) && is_layered(n) {
        lemma_same_layer(m, n);
        lemma_split(m);
        lemma_split(n);
        let p = layer_prefix(layer_of(m) as nat);
        assert(layer_suffix(m) =~= canonical(m).skip(p.len() as int));
        assert(layer_suffix(n) =~= canonical(n).skip(p.len() as int));
        lemma_suffix_key(m);
        lemma_suffix_key(n);
    } else if is_layered(m) {
        lemma_layered_char(m);
        lemma_embedding_char(n);
    } else if is_layered(n) {
        lemma_layered_char(n);
        lemma_embedding_char(m);
    } else {
        lemma_embedding_char(m);
        lemma_embedding_char(n);
    }
}

} // verus!
