use bart_encoder::tokenizer::{Token, VocabError, WordPieceTokenizer};

fn entries(pairs: &[(&str, u32)]) -> Vec<(String, u32)> {
    pairs.iter().map(|(p, i)| (p.to_string(), *i)).collect()
}

fn small_vocab() -> WordPieceTokenizer {
    WordPieceTokenizer::from_entries(entries(&[
        ("<s>", 0),
        ("<pad>", 1),
        ("</s>", 2),
        ("<unk>", 3),
        ("\u{120}the", 4),
        ("the", 5),
        ("t", 6),
        ("h", 7),
        ("e", 8),
        ("\u{120}", 9),
        ("he", 10),
        ("cat", 11),
    ]))
    .unwrap()
}

fn ids(tokens: &[Token]) -> Vec<u32> {
    tokens.iter().map(|t| t.get_id()).collect()
}

fn piece_of(tok: &WordPieceTokenizer, id: u32) -> String {
    let (_, piece) = tok.get_vocab().iter().find(|(i, _)| *i == id).unwrap();
    piece.iter().collect()
}

#[test]
fn tokenize_takes_longest_match() {
    let tok = small_vocab();
    assert_eq!(ids(&tok.tokenize("the the")), vec![5, 4]);
    assert_eq!(ids(&tok.tokenize("thecat")), vec![5, 11]);
    assert_eq!(ids(&tok.tokenize("he")), vec![10]);
}

#[test]
fn tokenize_marks_spaces() {
    let tok = small_vocab();
    assert_eq!(ids(&tok.tokenize(" cat")), vec![9, 11]);
}

#[test]
fn tokenize_unknown_takes_one_character() {
    let tok = small_vocab();
    assert_eq!(ids(&tok.tokenize("xy")), vec![3, 3]);
    assert_eq!(ids(&tok.tokenize("\u{e9}cat")), vec![3, 11]);
}

#[test]
fn tokenize_empty_text() {
    let tok = small_vocab();
    assert!(tok.tokenize("").is_empty());
}

#[test]
fn tokenize_breaks_ties_by_lowest_id() {
    let tok = WordPieceTokenizer::from_entries(entries(&[
        ("<s>", 0),
        ("<pad>", 1),
        ("</s>", 2),
        ("<unk>", 3),
        ("ab", 9),
        ("ab", 7),
    ]))
    .unwrap();
    assert_eq!(ids(&tok.tokenize("abab")), vec![7, 7]);
    assert_eq!(Token::from_substr(&tok, "ab").unwrap().get_id(), 7);
}

#[test]
fn round_trip_of_each_token() {
    let tok = small_vocab();
    for text in ["the cat", "xthe hecat e", " <unk>the"] {
        for t in tok.tokenize(text) {
            let piece = piece_of(&tok, t.get_id());
            assert_eq!(ids(&tok.tokenize(&piece)), vec![t.get_id()]);
        }
    }
}

#[test]
fn from_json_reads_object() {
    let tok = WordPieceTokenizer::from_json(
        "{\"<s>\": 0, \"<pad>\": 1, \"</s>\": 2, \"<unk>\": 3, \"hi\": 4}",
    )
    .unwrap();
    assert_eq!(tok.len(), 5);
    assert_eq!(ids(&tok.tokenize("hihi")), vec![4, 4]);
    assert_eq!(tok.bos_token().get_id(), 0);
    assert_eq!(tok.eos_token().get_id(), 2);
    assert_eq!(tok.pad_token().get_id(), 1);
}

#[test]
fn from_json_rejects_malformed() {
    assert_eq!(WordPieceTokenizer::from_json("[1, 2]").err(), Some(VocabError::Malformed));
    assert_eq!(WordPieceTokenizer::from_json("{\"a\": -1}").err(), Some(VocabError::Malformed));
}

#[test]
fn from_entries_rejects_duplicate_id() {
    let r = WordPieceTokenizer::from_entries(entries(&[
        ("<s>", 0),
        ("<pad>", 1),
        ("</s>", 2),
        ("<unk>", 3),
        ("a", 5),
        ("b", 5),
    ]));
    assert_eq!(r.err(), Some(VocabError::DuplicateId(5)));
}

#[test]
fn from_entries_needs_special_tokens() {
    let r = WordPieceTokenizer::from_entries(entries(&[("<s>", 0), ("</s>", 2), ("<unk>", 3)]));
    assert_eq!(r.err(), Some(VocabError::MissingSpecialToken));
}

#[test]
fn token_lookups() {
    let tok = small_vocab();
    assert_eq!(Token::new(&tok, 11).unwrap().get_id(), 11);
    assert!(Token::new(&tok, 99).is_none());
    assert_eq!(Token::from_substr(&tok, "</s>").unwrap().get_id(), 2);
    assert!(Token::from_substr(&tok, "dog").is_none());
}

#[test]
fn to_substr_shows_word_boundary_as_underscore() {
    let tok = small_vocab();
    let t = Token::new(&tok, 4).unwrap();
    assert_eq!(t.to_substr(&tok).unwrap(), "_the");
    let cat = Token::new(&tok, 11).unwrap();
    assert_eq!(cat.to_substr(&tok).unwrap(), "cat");
}
