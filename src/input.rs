//! The staged input pipeline: raw text, tokens, the fixed-length frame,
//! token embeddings, and embeddings with positions added. Each stage is its
//! own type, so each step applies only to the stage before it.
use vstd::prelude::*;

use candle_core::Tensor;

use crate::tensor_ops::{add_same_shape, row_copied, select_rows, shape_of, sum_of};
use crate::weights::TensorError;
use crate::tokenizer::{ids_of, mark_spaces, token_ids, Token, WordPieceTokenizer};

verus! {

/// The model's fixed input length.
pub const BART_MAX_SEQ_LEN: usize = 1026;

/// An input sequence in the stage `T`.
pub struct InputSeq<T: InputData> {
    pub state: T,
}

/// The stages of an input sequence.
pub trait InputData {}

/// No input yet.
pub struct Empty {}

impl InputData for Empty {}

/// The text as given.
pub struct RawText(String);

impl InputData for RawText {}

impl View for RawText {
    type V = Seq<char>;

    closed spec fn view(&self) -> Seq<char> {
        self.0@
    }
}

/// The tokens of the text, with the vocabulary they came from.
pub struct Tokenized<'a> {
    tokens: Vec<Token>,
    tokenizer: &'a WordPieceTokenizer,
}

impl<'a> InputData for Tokenized<'a> {}

impl<'a> Tokenized<'a> {
    pub closed spec fn ids(&self) -> Seq<u32> {
        ids_of(self.tokens@)
    }

    pub closed spec fn vocab(&self) -> WordPieceTokenizer {
        *self.tokenizer
    }

    pub open spec fn bos_id(&self) -> u32 {
        self.vocab().bos_id()
    }

    pub open spec fn eos_id(&self) -> u32 {
        self.vocab().eos_id()
    }

    pub open spec fn pad_id(&self) -> u32 {
        self.vocab().pad_id()
    }
}

/// The tokens framed as the model takes them.
pub struct BartTokens(Vec<Token>);

impl InputData for BartTokens {}

impl BartTokens {
    pub closed spec fn ids(&self) -> Seq<u32> {
        ids_of(self.0@)
    }
}

/// One embedding row per framed token.
pub struct TokenEmbeddings(Tensor);

impl InputData for TokenEmbeddings {}

impl TokenEmbeddings {
    pub closed spec fn tensor(&self) -> Tensor {
        self.0
    }

    pub closed spec fn shape(&self) -> Seq<usize> {
        shape_of(self.0)
    }
}

/// Token embeddings with the position embeddings added.
pub struct PositionedEmbeddings(Tensor);

impl InputData for PositionedEmbeddings {}

impl PositionedEmbeddings {
    pub closed spec fn tensor(&self) -> Tensor {
        self.0
    }

    pub closed spec fn shape(&self) -> Seq<usize> {
        shape_of(self.0)
    }
}

/// Why tokens could not be framed.
#[derive(Debug, PartialEq, Eq, Structural)]
pub enum FrameError {
    /// With the start and end tokens, this many tokens exceed the fixed length.
    SequenceTooLong(usize),
}

/// The frame: start token, the tokens, end token, then padding up to `len`.
pub open spec fn framed(ids: Seq<u32>, bos: u32, eos: u32, pad: u32, len: nat) -> Seq<u32> {
    seq![bos] + ids + seq![eos] + Seq::new((len - ids.len() - 2) as nat, |_i: int| pad)
}

/// A frame of tokens that fit has the fixed length, opens with the start
/// token, holds the tokens in order, closes them with the end token and is
/// padded after it.
pub proof fn lemma_frame_layout(ids: Seq<u32>, bos: u32, eos: u32, pad: u32)
    requires
        ids.len() + 2 <= BART_MAX_SEQ_LEN,
    ensures
        framed(ids, bos, eos, pad, BART_MAX_SEQ_LEN as nat).len() == BART_MAX_SEQ_LEN,
        framed(ids, bos, eos, pad, BART_MAX_SEQ_LEN as nat)[0] == bos,
        forall|i: int|
            0 <= i < ids.len() ==> #[trigger] framed(ids, bos, eos, pad, BART_MAX_SEQ_LEN as nat)[i
                + 1] == ids[i],
        framed(ids, bos, eos, pad, BART_MAX_SEQ_LEN as nat)[ids.len() as int + 1] == eos,
        forall|i: int|
            ids.len() + 2 <= i < BART_MAX_SEQ_LEN ==> #[trigger] framed(
                ids,
                bos,
                eos,
                pad,
                BART_MAX_SEQ_LEN as nat,
            )[i] == pad,
{
    let f = framed(ids, bos, eos, pad, BART_MAX_SEQ_LEN as nat);
    assert forall|i: int| 0 <= i < ids.len() implies #[trigger] f[i + 1] == ids[i] by {
        assert((seq![bos] + ids)[i + 1] == ids[i]);
    }
}

impl InputSeq<Empty> {
    pub fn new(text: String) -> (r: InputSeq<RawText>)
        ensures
            r.state@ == text@,
    {
        InputSeq { state: RawText(text) }
    }
}

impl InputSeq<RawText> {
    /// Tokenizes the text with the vocabulary's greedy longest match.
    pub fn tokenize<'a>(self, tokenizer: &'a WordPieceTokenizer) -> (r: InputSeq<Tokenized<'a>>)
        requires
            tokenizer.wf(),
        ensures
            r.state.ids() == token_ids(tokenizer@, tokenizer.unk_id(), mark_spaces(self.state@)),
            r.state.vocab() == *tokenizer,
    {
        let tokens = tokenizer.tokenize(self.state.0.as_str());
        InputSeq { state: Tokenized { tokens, tokenizer } }
    }
}

impl<'a> InputSeq<Tokenized<'a>> {
    pub fn get_tokens(&self) -> (r: &Vec<Token>)
        ensures
            ids_of(r@) == self.state.ids(),
    {
        &self.state.tokens
    }

    /// The vocabulary the tokens came from.
    pub fn get_tokenizer(&self) -> (r: &WordPieceTokenizer)
        ensures
            *r == self.state.vocab(),
    {
        self.state.tokenizer
    }

    /// Frames the tokens as the model was trained to take them: the start
    /// token, the tokens, the end token, then padding up to the fixed length.
    /// Tokens that do not fit are refused rather than cut.
    pub fn format_for_bart(self) -> (r: Result<InputSeq<BartTokens>, FrameError>)
        ensures
            r is Ok <==> self.state.ids().len() + 2 <= BART_MAX_SEQ_LEN,
            r matches Ok(b) ==> b.state.ids() == framed(
                self.state.ids(),
                self.state.bos_id(),
                self.state.eos_id(),
                self.state.pad_id(),
                BART_MAX_SEQ_LEN as nat,
            ),
            r matches Err(FrameError::SequenceTooLong(n)) ==> n == self.state.ids().len(),
    {
        let n = self.state.tokens.len();
        if n > BART_MAX_SEQ_LEN - 2 {
            return Err(FrameError::SequenceTooLong(n));
        }
        let bos = self.state.tokenizer.bos_token();
        let eos = self.state.tokenizer.eos_token();
        let pad = self.state.tokenizer.pad_token();
        let ghost ids = ids_of(self.state.tokens@);
        let ghost want = framed(
            ids,
            bos@,
            eos@,
            pad@,
            BART_MAX_SEQ_LEN as nat,
        );
        let mut tokens: Vec<Token> = Vec::new();
        tokens.push(bos);
        let mut i: usize = 0;
        while i < n
            invariant
                i <= n,
                n == self.state.tokens@.len(),
                ids == ids_of(self.state.tokens@),
                ids_of(tokens@) == seq![bos@] + ids.take(i as int),
            decreases n - i,
        {
            let ghost before = tokens@;
            tokens.push(self.state.tokens[i]);
            i += 1;
            proof {
                assert(tokens@ == before.push(self.state.tokens@[i - 1]));
                assert(ids_of(tokens@) =~= ids_of(before).push(ids[i - 1]));
                assert(ids.take(i as int) =~= ids.take(i - 1).push(ids[i - 1]));
                assert(ids_of(tokens@) =~= seq![bos@] + ids.take(i as int));
            }
        }
        tokens.push(eos);
        proof {
            assert(ids.take(n as int) =~= ids);
            assert(ids_of(tokens@) =~= seq![bos@] + ids + seq![eos@]);
        }
        while tokens.len() < BART_MAX_SEQ_LEN
            invariant
                n + 2 <= tokens@.len() <= BART_MAX_SEQ_LEN,
                ids == ids_of(self.state.tokens@),
                ids.len() == n,
                ids_of(tokens@) == want.take(tokens@.len() as int),
                want == framed(
                    ids,
                    bos@,
                    eos@,
                    pad@,
                    BART_MAX_SEQ_LEN as nat,
                ),
            decreases BART_MAX_SEQ_LEN - tokens.len(),
        {
            tokens.push(pad);
            proof {
                assert(ids_of(tokens@) =~= want.take(tokens@.len() as int));
            }
        }
        proof {
            assert(want.take(tokens@.len() as int) =~= want);
        }
        Ok(InputSeq { state: BartTokens(tokens) })
    }
}

impl InputSeq<BartTokens> {
    pub fn get_tokens(&self) -> (r: &Vec<Token>)
        ensures
            ids_of(r@) == self.state.ids(),
    {
        &self.state.0
    }

    /// The ids of the framed tokens, in order.
    pub fn frame_ids(&self) -> (r: Vec<u32>)
        ensures
            r@ == self.state.ids(),
    {
        let mut ids: Vec<u32> = Vec::new();
        let mut i: usize = 0;
        while i < self.state.0.len()
            invariant
                i <= self.state.0@.len(),
                ids@ == self.state.ids().take(i as int),
                self.state.ids() == ids_of(self.state.0@),
            decreases self.state.0.len() - i,
        {
            ids.push(self.state.0[i].get_id());
            i += 1;
            proof {
                assert(ids@ =~= self.state.ids().take(i as int));
            }
        }
        proof {
            assert(self.state.ids().take(i as int) =~= self.state.ids());
        }
        ids
    }

    /// Looks up the embedding row of each framed token: row `i` of the result
    /// is the row of `embed_tensor` at the id of token `i`. The id `u32::MAX`
    /// is refused, and an id past the table's last row fails in the engine.
    pub fn embed(self, embed_tensor: &Tensor) -> (r: Result<InputSeq<TokenEmbeddings>, TensorError>)
        ensures
            (r matches Err(TensorError::UnexpectedTokenId(_))) <==> exists|i: int|
                0 <= i < self.state.ids().len() && self.state.ids()[i] == u32::MAX,
            r matches Err(TensorError::UnexpectedTokenId(id)) ==> id == u32::MAX,
            r matches Err(e) ==> e is UnexpectedTokenId || e is BuildingTensor,
            r matches Ok(e) ==> {
                let ids = self.state.ids();
                &&& shape_of(*embed_tensor).len() >= 1
                &&& e.state.shape() == shape_of(*embed_tensor).update(0, ids.len() as usize)
                &&& forall|i: int| 0 <= i < ids.len() ==> ids[i] < shape_of(*embed_tensor)[0]
                &&& forall|i: int|
                    0 <= i < ids.len() ==> row_copied(
                        e.state.tensor(),
                        i as nat,
                        *embed_tensor,
                        ids[i] as nat,
                    )
            },
    {
        let ids = self.frame_ids();
        let mut i: usize = 0;
        while i < ids.len()
            invariant
                i <= ids@.len(),
                ids@ == self.state.ids(),
                forall|j: int| 0 <= j < i ==> ids@[j] != u32::MAX,
            decreases ids.len() - i,
        {
            if ids[i] == u32::MAX {
                assert(self.state.ids()[i as int] == u32::MAX);
                return Err(TensorError::UnexpectedTokenId(u32::MAX));
            }
            i += 1;
        }
        match select_rows(embed_tensor, ids) {
            Ok(embeds) => Ok(InputSeq { state: TokenEmbeddings(embeds) }),
            Err(e) => Err(TensorError::BuildingTensor(e)),
        }
    }
}

impl InputSeq<TokenEmbeddings> {
    /// Adds the position embeddings: row `i` gets position row `i`.
    pub fn add_pos_embeds(self, pos_embeds: &Tensor) -> (r: Result<InputSeq<PositionedEmbeddings>, candle_core::Error>)
        ensures
            r matches Ok(p) ==> {
                &&& p.state.shape() == self.state.shape()
                &&& shape_of(*pos_embeds) == self.state.shape()
                &&& sum_of(p.state.tensor(), self.state.tensor(), *pos_embeds)
            },
            shape_of(*pos_embeds) != self.state.shape() ==> r is Err,
    {
        let comb_embeds = add_same_shape(&self.state.0, pos_embeds)?;
        Ok(InputSeq { state: PositionedEmbeddings(comb_embeds) })
    }
}

impl InputSeq<PositionedEmbeddings> {
    pub fn get_embeds(&self) -> (r: &Tensor)
        ensures
            *r == self.state.tensor(),
            shape_of(*r) == self.state.shape(),
    {
        &self.state.0
    }
}

} // verus!
