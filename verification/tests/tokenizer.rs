use inferox::tokenizer::bytes::{byte_decoder, byte_encoder};
use inferox::tokenizer::{char_is_whitespace, BpeTokenizer, Tokenizer, TokenizerError};

/// The parts of a tiny tokenizer: `<|endoftext|>` is id 0, each byte `b` is
/// the token of its encoder character with id `b + 1`, and one merge joins
/// two space characters.
fn tiny_tokenizer() -> BpeTokenizer {
    let encoder = byte_encoder();
    let mut vocab: Vec<(String, u32)> = Vec::new();
    vocab.push(("<|endoftext|>".to_string(), 0));

    // Add single-byte tokens.
    for b in 0u8..=255u8 {
        let mut s = String::new();
        s.push(encoder[b as usize]);
        vocab.push((s, b as u32 + 1));
    }

    // Add a merge: space+space -> "  " (using byte 32's encoder char).
    let space = encoder[32].to_string();
    let merges = vec![format!("{} {}", space, space)];

    BpeTokenizer::from_parts(
        "BPE".to_string(),
        vocab,
        merges,
        vec!["<|endoftext|>".to_string()],
        Some("<|endoftext|>".to_string()),
    )
    .unwrap()
}

#[test]
fn encode_decode_ascii_roundtrip() {
    let tokenizer = tiny_tokenizer();
    let text = "hello world";
    let ids = tokenizer.encode(text);
    assert!(!ids.is_empty());
    let decoded = tokenizer.decode(&ids);
    assert_eq!(decoded, text);
}

#[test]
fn special_token_is_split() {
    let tokenizer = tiny_tokenizer();
    let ids = tokenizer.encode("hi<|endoftext|>lo");
    assert!(ids.contains(&0));
}

#[test]
fn special_token_splits_into_exact_ids() {
    let tokenizer = tiny_tokenizer();
    let ids = tokenizer.encode("hi<|endoftext|>lo");
    let h = b'h' as u32 + 1;
    let i = b'i' as u32 + 1;
    let l = b'l' as u32 + 1;
    let o = b'o' as u32 + 1;
    assert_eq!(ids, vec![h, i, 0, l, o]);
    assert_eq!(tokenizer.decode(&ids), "hi<|endoftext|>lo");
}

#[test]
fn bytes_without_merges_map_to_byte_tokens() {
    let tokenizer = tiny_tokenizer();
    let ids = tokenizer.encode("hello");
    assert_eq!(ids, vec![105, 102, 109, 109, 112]);
}

#[test]
fn merged_piece_missing_from_vocab_is_unknown() {
    let tokenizer = tiny_tokenizer();
    // The two spaces merge into one piece, which the vocabulary lacks.
    assert_eq!(tokenizer.encode("  "), vec![0]);
    // A single space stays a byte token.
    assert_eq!(tokenizer.encode(" "), vec![33]);
}

#[test]
fn bpe_merges_leftmost_best_pair() {
    let tokenizer = tiny_tokenizer();
    let space = byte_encoder()[32].to_string();
    let pieces = vec![space.clone(), space.clone(), space.clone()];
    let merged = tokenizer.bpe(pieces);
    assert_eq!(merged, vec![format!("{space}{space}"), space.clone()]);
    let single = tokenizer.bpe(vec!["a".to_string()]);
    assert_eq!(single, vec!["a".to_string()]);
}

#[test]
fn decode_replaces_invalid_utf8() {
    let tokenizer = tiny_tokenizer();
    // A lone lead byte 0xC3 is not valid UTF-8.
    assert_eq!(tokenizer.decode(&[0xC3 + 1]), "\u{FFFD}");
    // 0xC3 0xA9 is "é".
    assert_eq!(tokenizer.decode(&[0xC3 + 1, 0xA9 + 1]), "é");
}

#[test]
fn decode_skips_unknown_ids() {
    let tokenizer = tiny_tokenizer();
    assert_eq!(tokenizer.decode(&[9999, b'a' as u32 + 1]), "a");
}

#[test]
fn non_ascii_text_roundtrips() {
    let tokenizer = tiny_tokenizer();
    let text = "naïve café ✓";
    let ids = tokenizer.encode(text);
    assert_eq!(ids.len(), text.len());
    assert_eq!(tokenizer.decode(&ids), text);
}

#[test]
fn non_bpe_model_is_unsupported() {
    let res = BpeTokenizer::from_parts("WordPiece".to_string(), Vec::new(), Vec::new(), Vec::new(), None);
    match res {
        Err(TokenizerError::UnsupportedModel(k)) => assert_eq!(k, "WordPiece"),
        other => panic!("unexpected {other:?}"),
    }
}

#[test]
fn unknown_token_defaults_to_zero() {
    let vocab = vec![("a".to_string(), 7u32)];
    let t = BpeTokenizer::from_parts("BPE".to_string(), vocab.clone(), Vec::new(), Vec::new(), None).unwrap();
    assert_eq!(t.encode("ab"), vec![7, 0]);
    let t = BpeTokenizer::from_parts(
        "BPE".to_string(),
        vocab,
        Vec::new(),
        Vec::new(),
        Some("a".to_string()),
    )
    .unwrap();
    assert_eq!(t.encode("ab"), vec![7, 7]);
}

#[test]
fn empty_special_token_is_detected() {
    let t = BpeTokenizer::from_parts("BPE".to_string(), Vec::new(), Vec::new(), vec![String::new()], None).unwrap();
    assert!(t.has_empty_special_token());
    assert!(!tiny_tokenizer().has_empty_special_token());
}

#[test]
fn byte_tables_are_inverse() {
    let encoder = byte_encoder();
    let decoder = byte_decoder();
    assert_eq!(encoder.len(), 256);
    assert_eq!(decoder.len(), 256);
    assert_eq!(encoder[b'a' as usize], 'a');
    assert_eq!(encoder[b'!' as usize], '!');
    assert_eq!(encoder[0], '\u{100}');
    assert_eq!(encoder[32], '\u{120}');
    assert_eq!(encoder[255], '\u{FF}');
    assert_eq!(encoder[127], '\u{121}');
    for b in 0..256usize {
        assert_eq!(decoder.get(&(encoder[b] as u32)), Some(&(b as u8)));
    }
}

#[test]
fn whitespace_classes() {
    assert!(char_is_whitespace(' '));
    assert!(char_is_whitespace('\t'));
    assert!(char_is_whitespace('\n'));
    assert!(char_is_whitespace('\u{3000}'));
    assert!(!char_is_whitespace('a'));
    assert!(!char_is_whitespace('\u{120}'));
}

#[test]
fn merge_lines_with_one_part_are_skipped() {
    let encoder = byte_encoder();
    let space = encoder[32].to_string();
    let vocab = vec![(format!("{space}{space}"), 5u32), (space.clone(), 1u32)];
    let merges = vec!["lonely".to_string(), format!("{space} {space}")];
    let t = BpeTokenizer::from_parts("BPE".to_string(), vocab, merges, Vec::new(), None).unwrap();
    assert_eq!(t.encode("  "), vec![5]);
}

#[test]
fn characters_outside_the_byte_alphabet_decode_as_utf8() {
    let vocab = vec![("中".to_string(), 5u32), ("a".to_string(), 6u32)];
    let t = BpeTokenizer::from_parts("BPE".to_string(), vocab, Vec::new(), Vec::new(), None).unwrap();
    assert_eq!(t.decode(&[5, 6, 5]), "中a中");
}

#[test]
fn empty_text_encodes_even_with_an_empty_special_token() {
    let t = BpeTokenizer::from_parts("BPE".to_string(), Vec::new(), Vec::new(), vec![String::new()], None).unwrap();
    assert!(t.encode("").is_empty());
}

#[test]
fn two_and_four_byte_characters_decode_as_utf8() {
    let vocab = vec![("ω".to_string(), 1u32), ("😀".to_string(), 2u32)];
    let t = BpeTokenizer::from_parts("BPE".to_string(), vocab, Vec::new(), Vec::new(), None).unwrap();
    assert_eq!(t.decode(&[1, 2]), "ω😀");
}
