//! The subword vocabulary and the greedy longest-match tokenizer.
use std::collections::HashMap;
use std::collections::BTreeMap;

use vstd::prelude::*;

use crate::text::{chars_eq, from_chars, occurs_at, to_chars};

verus! {

broadcast use vstd::std_specs::hash::group_hash_axioms;

/// The glyph that marks a word boundary in the vocabulary's pieces.
pub const WORD_BOUNDARY: char = '\u{120}';

// A vocabulary is modelled as its list of (id, piece) entries.
/// Some entry has the id `id`.
pub open spec fn has_id(v: Seq<(u32, Seq<char>)>, id: u32) -> bool {
    exists|k: int| 0 <= k < v.len() && v[k].0 == id
}

/// Some entry is (`id`, `piece`).
pub open spec fn has_entry(v: Seq<(u32, Seq<char>)>, id: u32, piece: Seq<char>) -> bool {
    exists|k: int| 0 <= k < v.len() && v[k].0 == id && v[k].1 == piece
}

/// Some entry has the piece `piece`.
pub open spec fn has_piece(v: Seq<(u32, Seq<char>)>, piece: Seq<char>) -> bool {
    exists|k: int| 0 <= k < v.len() && v[k].1 == piece
}

/// No two entries share an id.
pub open spec fn unique_ids(v: Seq<(u32, Seq<char>)>) -> bool {
    forall|i: int, j: int| 0 <= i < v.len() && 0 <= j < v.len() && v[i].0 == v[j].0 ==> i == j
}

/// `id` is the lowest id that the vocabulary gives to `piece`.
pub open spec fn lowest_id_of(v: Seq<(u32, Seq<char>)>, piece: Seq<char>, id: u32) -> bool {
    &&& has_entry(v, id, piece)
    &&& forall|k: int| 0 <= k < v.len() && v[k].1 == piece ==> id <= v[k].0
}

/// Entry `k` is non-empty and a prefix of `text`.
pub open spec fn matches_at(v: Seq<(u32, Seq<char>)>, k: int, text: Seq<char>) -> bool {
    &&& 0 <= k < v.len()
    &&& 0 < v[k].1.len() <= text.len()
    &&& text.take(v[k].1.len() as int) == v[k].1
}

/// Entry `k` matches `text`, and no match is longer or, as long, has a lower id.
pub open spec fn is_best_match(v: Seq<(u32, Seq<char>)>, text: Seq<char>, k: int) -> bool {
    &&& matches_at(v, k, text)
    &&& forall|j: int|
        matches_at(v, j, text) ==> v[j].1.len() < v[k].1.len() || (v[j].1.len() == v[k].1.len()
            && v[k].0 <= v[j].0)
}

/// The ids that greedy longest-match tokenization gives `text`: at each
/// position the best match is taken; where nothing matches, `unk` stands for
/// one character.
pub open spec fn token_ids(v: Seq<(u32, Seq<char>)>, unk: u32, text: Seq<char>) -> Seq<u32>
    decreases text.len(),
{
    if text.len() == 0 {
        seq![]
    } else if exists|k: int| is_best_match(v, text, k) {
        let k = choose|k: int| is_best_match(v, text, k);
        seq![v[k].0] + token_ids(v, unk, text.skip(v[k].1.len() as int))
    } else {
        seq![unk] + token_ids(v, unk, text.skip(1))
    }
}

/// The text with each space replaced by the word-boundary glyph.
pub open spec fn mark_spaces(s: Seq<char>) -> Seq<char> {
    s.map_values(|c: char| if c == ' ' { WORD_BOUNDARY } else { c })
}

/// A piece as shown to a reader: the word-boundary glyph becomes `_`.
pub open spec fn display_piece(p: Seq<char>) -> Seq<char> {
    p.map_values(|c: char| if c == WORD_BOUNDARY { '_' } else { c })
}

pub open spec fn ids_of(ts: Seq<Token>) -> Seq<u32> {
    ts.map_values(|t: Token| t@)
}

/// A token id that exists in the vocabulary it came from.
#[derive(Clone, Copy)]
pub struct Token {
    id: u32,
}

impl View for Token {
    type V = u32;

    closed spec fn view(&self) -> u32 {
        self.id
    }
}

/// Why a vocabulary was refused.
#[derive(Debug, PartialEq, Eq, Structural)]
pub enum VocabError {
    /// The text is not a JSON object from pieces to ids.
    Malformed,
    /// Two pieces share this id.
    DuplicateId(u32),
    /// One of `<s>`, `</s>`, `<pad>`, `<unk>` is absent.
    MissingSpecialToken,
}

/// A vocabulary of subword pieces, each under a unique id.
pub struct WordPieceTokenizer {
    entries: Vec<(u32, Vec<char>)>,
    index: HashMap<u32, usize>,
    bos: u32,
    eos: u32,
    pad: u32,
    unk: u32,
}

pub open spec fn entries_view(e: Seq<(u32, Vec<char>)>) -> Seq<(u32, Seq<char>)> {
    e.map_values(|x: (u32, Vec<char>)| (x.0, x.1@))
}

pub open spec fn input_view(e: Seq<(String, u32)>) -> Seq<(u32, Seq<char>)> {
    e.map_values(|x: (String, u32)| (x.1, x.0@))
}

pub open spec fn bos_piece() -> Seq<char> {
    "<s>"@
}

pub open spec fn eos_piece() -> Seq<char> {
    "</s>"@
}

pub open spec fn pad_piece() -> Seq<char> {
    "<pad>"@
}

pub open spec fn unk_piece() -> Seq<char> {
    "<unk>"@
}

/// The vocabulary holds the four special pieces.
pub open spec fn has_specials(v: Seq<(u32, Seq<char>)>) -> bool {
    has_piece(v, bos_piece()) && has_piece(v, eos_piece()) && has_piece(v, pad_piece())
        && has_piece(v, unk_piece())
}

impl View for WordPieceTokenizer {
    type V = Seq<(u32, Seq<char>)>;

    closed spec fn view(&self) -> Seq<(u32, Seq<char>)> {
        entries_view(self.entries@)
    }
}

impl WordPieceTokenizer {
    pub closed spec fn bos_id(&self) -> u32 {
        self.bos
    }

    pub closed spec fn eos_id(&self) -> u32 {
        self.eos
    }

    pub closed spec fn pad_id(&self) -> u32 {
        self.pad
    }

    pub closed spec fn unk_id(&self) -> u32 {
        self.unk
    }

    /// The id index agrees with the entries.
    pub closed spec fn index_ok(&self) -> bool {
        &&& forall|id: u32| #[trigger]
            self.index@.contains_key(id) ==> self.index@[id] < self.entries@.len()
                && self.entries@[self.index@[id] as int].0 == id
        &&& forall|k: int|
            0 <= k < self.entries@.len() ==> self.index@.contains_key(#[trigger] self.entries@[k].0)
                && self.index@[self.entries@[k].0] == k
    }

    pub open spec fn wf(&self) -> bool {
        &&& self.index_ok()
        &&& unique_ids(self@)
        &&& lowest_id_of(self@, bos_piece(), self.bos_id())
        &&& lowest_id_of(self@, eos_piece(), self.eos_id())
        &&& lowest_id_of(self@, pad_piece(), self.pad_id())
        &&& lowest_id_of(self@, unk_piece(), self.unk_id())
    }
}

/// The lowest id among the entries whose piece is `piece`.
fn lowest_id(entries: &Vec<(u32, Vec<char>)>, piece: &Vec<char>) -> (r: Option<u32>)
    ensures
        r matches Some(id) ==> lowest_id_of(entries_view(entries@), piece@, id),
        r is None ==> !has_piece(entries_view(entries@), piece@),
{
    let ghost v = entries_view(entries@);
    let mut best: Option<u32> = None;
    let mut k: usize = 0;
    while k < entries.len()
        invariant
            k <= entries.len(),
            v == entries_view(entries@),
            best matches Some(id) ==> has_entry(v, id, piece@),
            best matches Some(id) ==> forall|j: int| 0 <= j < k && v[j].1 == piece@ ==> id <= v[j].0,
            best is None ==> forall|j: int| 0 <= j < k ==> v[j].1 != piece@,
        decreases entries.len() - k,
    {
        if chars_eq(&entries[k].1, piece) {
            let id = entries[k].0;
            assert(v[k as int] == (id, piece@));
            match best {
                Some(b) => {
                    if id < b {
                        best = Some(id);
                    }
                },
                None => {
                    best = Some(id);
                },
            }
        }
        k += 1;
    }
    best
}

impl Token {
    /// The token of the lowest id whose piece is `substr`, if there is one.
    pub fn from_substr(tokenizer: &WordPieceTokenizer, substr: &str) -> (r: Option<Self>)
        ensures
            r matches Some(t) ==> lowest_id_of(tokenizer@, substr@, t@),
            r is None ==> !has_piece(tokenizer@, substr@),
    {
        let piece = to_chars(substr);
        proof {
            assert(entries_view(tokenizer.entries@) == tokenizer@);
        }
        match lowest_id(&tokenizer.entries, &piece) {
            Some(id) => Some(Token { id }),
            None => None,
        }
    }

    /// The token of `id`, if the vocabulary has that id.
    pub fn new(tokenizer: &WordPieceTokenizer, id: u32) -> (r: Option<Self>)
        requires
            tokenizer.wf(),
        ensures
            r is Some <==> has_id(tokenizer@, id),
            r matches Some(t) ==> t@ == id,
    {
        match tokenizer.index.get(&id) {
            Some(_) => {
                proof {
                    let k = tokenizer.index@[id] as int;
                    assert(tokenizer@[k].0 == id);
                }
                Some(Token { id })
            },
            None => {
                proof {
                    if has_id(tokenizer@, id) {
                        let k = choose|k: int| 0 <= k < tokenizer@.len() && tokenizer@[k].0 == id;
                        assert(tokenizer.entries@[k].0 == id);
                    }
                }
                None
            },
        }
    }

    /// The token's piece, with the word-boundary glyph shown as `_`.
    pub fn to_substr(self, tokenizer: &WordPieceTokenizer) -> (r: Option<String>)
        requires
            tokenizer.wf(),
        ensures
            r is Some <==> has_id(tokenizer@, self@),
            r matches Some(s) ==> forall|k: int|
                0 <= k < tokenizer@.len() && tokenizer@[k].0 == self@ ==> s@ == display_piece(
                    tokenizer@[k].1,
                ),
    {
        match tokenizer.index.get(&self.id) {
            Some(k) => {
                let k = *k;
                let piece = &tokenizer.entries[k].1;
                let mut shown: Vec<char> = Vec::new();
                let mut i: usize = 0;
                while i < piece.len()
                    invariant
                        i <= piece.len(),
                        shown@ == display_piece(piece@).take(i as int),
                    decreases piece.len() - i,
                {
                    let c = piece[i];
                    if c == WORD_BOUNDARY {
                        shown.push('_');
                    } else {
                        shown.push(c);
                    }
                    i += 1;
                    proof {
                        assert(shown@ =~= display_piece(piece@).take(i as int));
                    }
                }
                proof {
                    assert(shown@ =~= display_piece(piece@));
                    assert(tokenizer@[k as int].1 == piece@);
                }
                Some(from_chars(&shown))
            },
            None => {
                proof {
                    if has_id(tokenizer@, self.id) {
                        let k = choose|k: int|
                            0 <= k < tokenizer@.len() && tokenizer@[k].0 == self.id;
                        assert(tokenizer.entries@[k].0 == self.id);
                    }
                }
                None
            },
        }
    }

    pub fn get_id(&self) -> (r: u32)
        ensures
            r == self@,
    {
        self.id
    }
}

/// The (id, piece) entries of a JSON object from pieces to ids, or `None`
/// where the text is not such an object.
pub uninterp spec fn vocab_json(s: Seq<char>) -> Option<Seq<(u32, Seq<char>)>>;

/// Relies on `serde_json::from_str` into a `BTreeMap<String, u32>`: the
/// object's pairs in key order, or an error on text that is not such an object.
#[verifier::external_body]
fn parse_vocab_json(s: &str) -> (r: Option<Vec<(String, u32)>>)
    ensures
        r matches Some(v) ==> vocab_json(s@) == Some(input_view(v@)),
        r is None ==> vocab_json(s@) is None,
{
    serde_json::from_str::<BTreeMap<String, u32>>(s).ok().map(|m| m.into_iter().collect())
}

impl WordPieceTokenizer {
    /// Builds the vocabulary from (piece, id) pairs, keeping their order.
    pub fn from_entries(entries: Vec<(String, u32)>) -> (r: Result<Self, VocabError>)
        ensures
            r is Ok <==> unique_ids(input_view(entries@)) && has_specials(input_view(entries@)),
            r matches Ok(t) ==> t.wf() && t@ == input_view(entries@),
            (r matches Err(VocabError::DuplicateId(_))) <==> !unique_ids(input_view(entries@)),
            r == Err::<Self, VocabError>(VocabError::MissingSpecialToken) <==> unique_ids(
                input_view(entries@),
            ) && !has_specials(input_view(entries@)),
            r != Err::<Self, VocabError>(VocabError::Malformed),
    {
        let ghost input = input_view(entries@);
        let mut out: Vec<(u32, Vec<char>)> = Vec::new();
        let mut index: HashMap<u32, usize> = HashMap::new();
        let mut i: usize = 0;
        while i < entries.len()
            invariant
                i <= entries.len(),
                input == input_view(entries@),
                out@.len() == i,
                entries_view(out@) == input.take(i as int),
                forall|id: u32| #[trigger]
                    index@.contains_key(id) ==> index@[id] < out@.len() && out@[index@[id] as int].0
                        == id,
                forall|k: int|
                    0 <= k < out@.len() ==> index@.contains_key(#[trigger] out@[k].0)
                        && index@[out@[k].0] == k,
            decreases entries.len() - i,
        {
            let id = entries[i].1;
            if index.contains_key(&id) {
                proof {
                    let j = index@[id] as int;
                    assert(input[j].0 == entries_view(out@)[j].0);
                    assert(input[i as int].0 == id);
                }
                return Err(VocabError::DuplicateId(id));
            }
            let piece = to_chars(entries[i].0.as_str());
            index.insert(id, i);
            out.push((id, piece));
            i += 1;
            proof {
                assert(entries_view(out@) =~= input.take(i as int));
            }
        }
        proof {
            assert(input.take(i as int) =~= input);
            assert forall|a: int, b: int|
                0 <= a < input.len() && 0 <= b < input.len() && input[a].0 == input[b].0 implies a
                == b by {
                assert(out@[a].0 == input[a].0);
                assert(out@[b].0 == input[b].0);
            }
        }
        let bos = lowest_id(&out, &to_chars("<s>"));
        let eos = lowest_id(&out, &to_chars("</s>"));
        let pad = lowest_id(&out, &to_chars("<pad>"));
        let unk = lowest_id(&out, &to_chars("<unk>"));
        match (bos, eos, pad, unk) {
            (Some(bos), Some(eos), Some(pad), Some(unk)) => {
                let t = WordPieceTokenizer { entries: out, index, bos, eos, pad, unk };
                proof {
                    assert(t@ == input);
                }
                Ok(t)
            },
            _ => Err(VocabError::MissingSpecialToken),
        }
    }

    /// Builds the vocabulary from the text of a JSON object mapping each piece to its id.
    pub fn from_json(text: &str) -> (r: Result<Self, VocabError>)
        ensures
            vocab_json(text@) is None ==> r == Err::<Self, VocabError>(VocabError::Malformed),
            vocab_json(text@) matches Some(v) ==> {
                &&& r is Ok <==> unique_ids(v) && has_specials(v)
                &&& r matches Ok(t) ==> t.wf() && t@ == v
                &&& (r matches Err(VocabError::DuplicateId(_))) <==> !unique_ids(v)
                &&& r == Err::<Self, VocabError>(VocabError::MissingSpecialToken) <==> unique_ids(v)
                    && !has_specials(v)
            },
    {
        match parse_vocab_json(text) {
            Some(entries) => Self::from_entries(entries),
            None => Err(VocabError::Malformed),
        }
    }

    /// The (id, piece) entries.
    pub fn get_vocab(&self) -> (r: &Vec<(u32, Vec<char>)>)
        ensures
            entries_view(r@) == self@,
    {
        &self.entries
    }

    /// The start-of-sequence token.
    pub fn bos_token(&self) -> (r: Token)
        ensures
            r@ == self.bos_id(),
    {
        Token { id: self.bos }
    }

    /// The end-of-sequence token.
    pub fn eos_token(&self) -> (r: Token)
        ensures
            r@ == self.eos_id(),
    {
        Token { id: self.eos }
    }

    /// The padding token.
    pub fn pad_token(&self) -> (r: Token)
        ensures
            r@ == self.pad_id(),
    {
        Token { id: self.pad }
    }

    /// The number of entries.
    pub fn len(&self) -> (r: usize)
        ensures
            r == self@.len(),
    {
        self.entries.len()
    }
}

/// Two best matches of one text are the same entry value.
proof fn lemma_best_match_unique(v: Seq<(u32, Seq<char>)>, text: Seq<char>, a: int, b: int)
    requires
        is_best_match(v, text, a),
        is_best_match(v, text, b),
    ensures
        v[a] == v[b],
{
    assert(v[a].1 == text.take(v[a].1.len() as int));
    assert(v[b].1 == text.take(v[b].1.len() as int));
}

/// The characters of `s` with each space replaced by the word-boundary glyph.
fn marked_chars(s: &str) -> (r: Vec<char>)
    ensures
        r@ == mark_spaces(s@),
{
    let raw = to_chars(s);
    let mut out: Vec<char> = Vec::new();
    let mut i: usize = 0;
    while i < raw.len()
        invariant
            i <= raw.len(),
            raw@ == s@,
            out@ == mark_spaces(s@).take(i as int),
        decreases raw.len() - i,
    {
        if raw[i] == ' ' {
            out.push(WORD_BOUNDARY);
        } else {
            out.push(raw[i]);
        }
        i += 1;
        proof {
            assert(out@ =~= mark_spaces(s@).take(i as int));
        }
    }
    proof {
        assert(out@ =~= mark_spaces(s@));
    }
    out
}

impl WordPieceTokenizer {
    /// The index of the best match of the vocabulary at `start` of `text`.
    fn best_match(&self, text: &Vec<char>, start: usize) -> (r: Option<usize>)
        requires
            start <= text.len(),
        ensures
            r matches Some(k) ==> is_best_match(self@, text@.skip(start as int), k as int),
            r is None ==> forall|k: int| !matches_at(self@, k, text@.skip(start as int)),
    {
        let ghost v = self@;
        let ghost t = text@.skip(start as int);
        let mut best: Option<usize> = None;
        let mut k: usize = 0;
        while k < self.entries.len()
            invariant
                k <= self.entries.len(),
                v == self@,
                v.len() == self.entries@.len(),
                t == text@.skip(start as int),
                start <= text.len(),
                best matches Some(b) ==> b < k && matches_at(v, b as int, t),
                best matches Some(b) ==> forall|j: int|
                    0 <= j < k && matches_at(v, j, t) ==> v[j].1.len() < v[b as int].1.len() || (
                    v[j].1.len() == v[b as int].1.len() && v[b as int].0 <= v[j].0),
                best is None ==> forall|j: int| 0 <= j < k ==> !matches_at(v, j, t),
            decreases self.entries.len() - k,
        {
            proof {
                assert(v[k as int] == (self.entries@[k as int].0, self.entries@[k as int].1@));
            }
            if occurs_at(&self.entries[k].1, text, start) {
                match best {
                    Some(b) => {
                        proof {
                            assert(v[b as int] == (self.entries@[b as int].0, self.entries@[b as int].1@));
                        }
                        let lk = self.entries[k].1.len();
                        let lb = self.entries[b].1.len();
                        if lk > lb || (lk == lb && self.entries[k].0 < self.entries[b].0) {
                            best = Some(k);
                        }
                    },
                    None => {
                        best = Some(k);
                    },
                }
            }
            k += 1;
        }
        best
    }

    /// Splits `text` into tokens: spaces become the word-boundary glyph, then
    /// at each position the longest matching piece is taken (the lowest id
    /// among equally long ones); where none matches, the unknown token stands
    /// for one character.
    pub fn tokenize(&self, text: &str) -> (r: Vec<Token>)
        requires
            self.wf(),
        ensures
            ids_of(r@) == token_ids(self@, self.unk_id(), mark_spaces(text@)),
    {
        let ghost v = self@;
        let ghost unk = self.unk_id();
        let chars = marked_chars(text);
        let ghost all = chars@;
        let mut tokens: Vec<Token> = Vec::new();
        let mut start: usize = 0;
        proof {
            assert(all.skip(0) =~= all);
            assert(ids_of(tokens@) =~= Seq::<u32>::empty());
            assert(Seq::<u32>::empty() + token_ids(v, unk, all) =~= token_ids(v, unk, all));
        }
        while start < chars.len()
            invariant
                start <= chars.len(),
                v == self@,
                unk == self.unk_id(),
                all == chars@,
                ids_of(tokens@) + token_ids(v, unk, all.skip(start as int)) == token_ids(v, unk, all),
            decreases chars.len() - start,
        {
            let ghost rest = all.skip(start as int);
            let ghost before = ids_of(tokens@);
            match self.best_match(&chars, start) {
                Some(k) => {
                    let id = self.entries[k].0;
                    let n = self.entries[k].1.len();
                    proof {
                        assert(v[k as int] == (self.entries@[k as int].0, self.entries@[k as int].1@));
                        let c = choose|c: int| is_best_match(v, rest, c);
                        lemma_best_match_unique(v, rest, c, k as int);
                        assert(rest.skip(n as int) =~= all.skip(start + n));
                        assert(token_ids(v, unk, rest) == seq![id] + token_ids(v, unk, rest.skip(n as int)));
                    }
                    tokens.push(Token { id });
                    start += n;
                    proof {
                        assert(ids_of(tokens@) =~= before.push(id));
                        assert(ids_of(tokens@) + token_ids(v, unk, all.skip(start as int)) =~= before + (seq![id] + token_ids(v, unk, all.skip(start as int))));
                    }
                },
                None => {
                    proof {
                        assert(!exists|c: int| is_best_match(v, rest, c));
                        assert(rest.skip(1) =~= all.skip(start + 1));
                        assert(token_ids(v, unk, rest) == seq![unk] + token_ids(v, unk, rest.skip(1)));
                    }
                    tokens.push(Token { id: self.unk });
                    start += 1;
                    proof {
                        assert(ids_of(tokens@) =~= before.push(unk));
                        assert(ids_of(tokens@) + token_ids(v, unk, all.skip(start as int)) =~= before + (seq![unk] + token_ids(v, unk, all.skip(start as int))));
                    }
                },
            }
        }
        proof {
            assert(all.skip(start as int) =~= Seq::<char>::empty());
            assert(ids_of(tokens@) + seq![] =~= ids_of(tokens@));
        }
        tokens
    }
}

pub open spec fn no_spaces(s: Seq<char>) -> bool {
    forall|j: int| 0 <= j < s.len() ==> s[j] != ' '
}

/// Entry `k` has id `id`, a non-empty piece without spaces, and no entry of
/// the same piece has a lower id.
pub open spec fn renders_alone(v: Seq<(u32, Seq<char>)>, k: int, id: u32) -> bool {
    &&& 0 <= k < v.len()
    &&& v[k].0 == id
    &&& 0 < v[k].1.len()
    &&& no_spaces(v[k].1)
    &&& lowest_id_of(v, v[k].1, id)
}

/// Each id of a space-free text is the unknown id or that of an entry that renders alone.
proof fn lemma_produced_ids(v: Seq<(u32, Seq<char>)>, unk: u32, s: Seq<char>, i: int)
    requires
        no_spaces(s),
        0 <= i < token_ids(v, unk, s).len(),
    ensures
        token_ids(v, unk, s)[i] == unk || exists|k: int| renders_alone(v, k, token_ids(v, unk, s)[i]),
    decreases s.len(),
{
    if exists|c: int| is_best_match(v, s, c) {
        let c = choose|c: int| is_best_match(v, s, c);
        let n = v[c].1.len() as int;
        let rest = s.skip(n);
        assert(token_ids(v, unk, s) == seq![v[c].0] + token_ids(v, unk, rest));
        if i == 0 {
            assert(v[c].1 == s.take(n));
            assert forall|j: int| 0 <= j < v.len() && v[j].1 == v[c].1 implies v[c].0 <= v[j].0 by {
                assert(matches_at(v, j, s));
            }
            assert(no_spaces(v[c].1)) by {
                assert forall|j: int| 0 <= j < v[c].1.len() implies v[c].1[j] != ' ' by {
                    assert(v[c].1[j] == s[j]);
                }
            }
            assert(renders_alone(v, c, v[c].0));
        } else {
            assert(no_spaces(rest)) by {
                assert forall|j: int| 0 <= j < rest.len() implies rest[j] != ' ' by {
                    assert(rest[j] == s[j + n]);
                }
            }
            lemma_produced_ids(v, unk, rest, i - 1);
        }
    } else {
        let rest = s.skip(1);
        assert(token_ids(v, unk, s) == seq![unk] + token_ids(v, unk, rest));
        if i > 0 {
            assert(no_spaces(rest)) by {
                assert forall|j: int| 0 <= j < rest.len() implies rest[j] != ' ' by {
                    assert(rest[j] == s[j + 1]);
                }
            }
            lemma_produced_ids(v, unk, rest, i - 1);
        }
    }
}

/// An entry that renders alone tokenizes to exactly its own id.
proof fn lemma_piece_alone(v: Seq<(u32, Seq<char>)>, unk: u32, k: int)
    requires
        renders_alone(v, k, v[k].0),
    ensures
        token_ids(v, unk, mark_spaces(v[k].1)) == seq![v[k].0],
{
    let p = v[k].1;
    assert(mark_spaces(p) =~= p);
    assert(p.take(p.len() as int) =~= p);
    assert(is_best_match(v, p, k)) by {
        assert forall|j: int| matches_at(v, j, p) implies v[j].1.len() < v[k].1.len() || (
        v[j].1.len() == v[k].1.len() && v[k].0 <= v[j].0) by {
            if v[j].1.len() == p.len() {
                assert(v[j].1 == p);
            }
        }
    }
    let c = choose|c: int| is_best_match(v, p, c);
    lemma_best_match_unique(v, p, c, k);
    assert(p.skip(p.len() as int) =~= Seq::<char>::empty());
    assert(token_ids(v, unk, p) == seq![v[k].0] + token_ids(v, unk, p.skip(p.len() as int)));
    assert(token_ids(v, unk, Seq::<char>::empty()) == Seq::<u32>::empty());
    assert(seq![v[k].0] + Seq::<u32>::empty() =~= seq![v[k].0]);
}

/// Round trip: every token that tokenizing a text produces has a piece in the
/// vocabulary, and that piece, tokenized alone, gives exactly that token.
pub proof fn lemma_token_round_trip(t: WordPieceTokenizer, text: Seq<char>, i: int)
    requires
        t.wf(),
        0 <= i < token_ids(t@, t.unk_id(), mark_spaces(text)).len(),
    ensures
        has_id(t@, token_ids(t@, t.unk_id(), mark_spaces(text))[i]),
        forall|k: int|
            0 <= k < t@.len() && t@[k].0 == token_ids(t@, t.unk_id(), mark_spaces(text))[i]
                ==> token_ids(t@, t.unk_id(), mark_spaces(t@[k].1)) == seq![t@[k].0],
{
    let v = t@;
    let unk = t.unk_id();
    let s = mark_spaces(text);
    let id = token_ids(v, unk, s)[i];
    assert(no_spaces(s));
    lemma_produced_ids(v, unk, s, i);
    let w = if id == unk {
        reveal_strlit("<unk>");
        let w = choose|w: int| 0 <= w < v.len() && v[w].0 == unk && v[w].1 == unk_piece();
        assert(renders_alone(v, w, id));
        w
    } else {
        choose|w: int| renders_alone(v, w, id)
    };
    assert forall|k: int| 0 <= k < v.len() && v[k].0 == id implies token_ids(
        v,
        unk,
        mark_spaces(v[k].1),
    ) == seq![v[k].0] by {
        assert(k == w);
        lemma_piece_alone(v, unk, k);
    }
}

} // verus!
