//! What encoding and decoding promise together.
use super::bpe::{flatten, lemma_bpe_preserves_text, lemma_flatten_concat, spec_bpe};
use super::bytes::{lemma_byte_char_injective, lemma_byte_code_is_char, spec_byte_char, spec_byte_code};
use super::split::{lemma_split_preserves_text, no_empty_token, spec_split};
use super::{
    char_byte, char_bytes, ids_bytes, ids_of_pieces, initial_pieces, piece_ids, spec_decode,
    spec_encode, token_bytes, token_id, vocab_find, TokenizerModel,
};
use vstd::prelude::*;
use vstd::utf8::{encode_utf8, encode_utf8_decode_utf8, encode_utf8_valid_utf8};

verus! {

/// The token string `s` has an id in the vocabulary, and that id maps back to `s`.
pub open spec fn round_trips(t: TokenizerModel, s: Seq<char>) -> bool {
    vocab_find(t.vocab, s, 0) matches Some(id) && t.id_to_token.get(id) == Some(s)
}

/// Every token that encoding a piece yields maps back to itself; a special
/// token must moreover be spelled with characters that decode to their own
/// UTF-8 bytes.
pub open spec fn piece_covered(t: TokenizerModel, p: Seq<char>) -> bool {
    if t.special.contains(p) {
        round_trips(t, p) && token_bytes(p) == encode_utf8(p)
    } else {
        let merged = spec_bpe(t.merges, initial_pieces(encode_utf8(p)));
        forall|j: int| 0 <= j < merged.len() ==> round_trips(t, #[trigger] merged[j])
    }
}

/// Every piece of `text` is covered by the vocabulary.
pub open spec fn encoding_covered(t: TokenizerModel, text: Seq<char>) -> bool {
    let ps = spec_split(t.special, text);
    forall|i: int| 0 <= i < ps.len() ==> piece_covered(t, #[trigger] ps[i])
}

/// The byte tables are inverse to each other: the character standing for a
/// byte decodes back to that byte.
pub proof fn lemma_byte_tables_inverse(b: int)
    requires
        0 <= b < 256,
    ensures
        char_byte(spec_byte_char(b)) == Some(b as u8),
        char_bytes(spec_byte_char(b)) == seq![b as u8],
{
    lemma_byte_code_is_char(b);
    let c = spec_byte_char(b);
    assert(0 <= b < 256 && spec_byte_code(b) == c as u32);
    let w = choose|w: int| 0 <= w < 256 && spec_byte_code(w) == c as u32;
    if w != b {
        lemma_byte_char_injective(w, b);
    }
}

/// UTF-8 encoding distributes over concatenation.
pub proof fn lemma_encode_utf8_concat(a: Seq<char>, b: Seq<char>)
    ensures
        encode_utf8(a + b) == encode_utf8(a) + encode_utf8(b),
    decreases a.len(),
{
    if a.len() == 0 {
        assert(a + b =~= b);
        assert(encode_utf8(a) + encode_utf8(b) =~= encode_utf8(b));
    } else {
        lemma_encode_utf8_concat(a.drop_first(), b);
        assert((a + b).drop_first() =~= a.drop_first() + b);
        assert((a + b)[0] == a[0]);
        assert(encode_utf8(a) + encode_utf8(b) =~= encode_scalar_of(a[0]) + (encode_utf8(a.drop_first()) + encode_utf8(b)));
    }
}

spec fn encode_scalar_of(c: char) -> Seq<u8> {
    vstd::utf8::encode_scalar(c as u32)
}

/// Token bytes distribute over concatenation.
pub proof fn lemma_token_bytes_concat(a: Seq<char>, b: Seq<char>)
    ensures
        token_bytes(a + b) == token_bytes(a) + token_bytes(b),
    decreases b.len(),
{
    if b.len() == 0 {
        assert(a + b =~= a);
        assert(token_bytes(a) + token_bytes(b) =~= token_bytes(a));
    } else {
        lemma_token_bytes_concat(a, b.drop_last());
        assert((a + b).drop_last() =~= a + b.drop_last());
        assert((a + b).last() == b.last());
        assert(token_bytes(a) + token_bytes(b) =~= token_bytes(a) + token_bytes(b.drop_last())
            + char_bytes(b.last()));
    }
}

/// Id bytes distribute over concatenation.
pub proof fn lemma_ids_bytes_concat(t: TokenizerModel, a: Seq<u32>, b: Seq<u32>)
    ensures
        ids_bytes(t, a + b) == ids_bytes(t, a) + ids_bytes(t, b),
    decreases b.len(),
{
    if b.len() == 0 {
        assert(a + b =~= a);
        assert(ids_bytes(t, a) + ids_bytes(t, b) =~= ids_bytes(t, a));
    } else {
        lemma_ids_bytes_concat(t, a, b.drop_last());
        assert((a + b).drop_last() =~= a + b.drop_last());
        assert((a + b).last() == b.last());
        let last = match t.id_to_token.get(b.last()) {
            Some(tok) => token_bytes(tok),
            None => Seq::empty(),
        };
        assert(ids_bytes(t, a) + ids_bytes(t, b) =~= ids_bytes(t, a) + ids_bytes(t, b.drop_last()) + last);
    }
}

/// The ids of tokens that map back to themselves decode to the bytes of the
/// tokens' concatenation.
proof fn lemma_ids_bytes_of_tokens(t: TokenizerModel, ms: Seq<Seq<char>>)
    requires
        forall|j: int| 0 <= j < ms.len() ==> round_trips(t, #[trigger] ms[j]),
    ensures
        ids_bytes(t, ms.map_values(|s: Seq<char>| token_id(t, s))) == token_bytes(flatten(ms)),
    decreases ms.len(),
{
    let ids = ms.map_values(|s: Seq<char>| token_id(t, s));
    if ms.len() == 0 {
        assert(token_bytes(flatten(ms)) == Seq::<u8>::empty());
    } else {
        let prev = ms.drop_last();
        assert forall|j: int| 0 <= j < prev.len() implies round_trips(t, #[trigger] prev[j]) by {
            assert(prev[j] == ms[j]);
        }
        lemma_ids_bytes_of_tokens(t, prev);
        assert(ids.drop_last() =~= prev.map_values(|s: Seq<char>| token_id(t, s)));
        assert(round_trips(t, ms[ms.len() - 1]));
        assert(ids.last() == token_id(t, ms.last()));
        lemma_token_bytes_concat(flatten(prev), ms.last());
    }
}

/// The byte characters of a byte sequence decode back to those bytes.
proof fn lemma_initial_pieces_bytes(bytes: Seq<u8>)
    ensures
        token_bytes(flatten(initial_pieces(bytes))) == bytes,
    decreases bytes.len(),
{
    if bytes.len() == 0 {
        assert(initial_pieces(bytes) =~= Seq::<Seq<char>>::empty());
        assert(token_bytes(flatten(initial_pieces(bytes))) =~= bytes);
    } else {
        let prev = bytes.drop_last();
        lemma_initial_pieces_bytes(prev);
        let c = spec_byte_char(bytes.last() as int);
        assert(initial_pieces(bytes).drop_last() =~= initial_pieces(prev));
        assert(initial_pieces(bytes).last() == seq![c]);
        lemma_token_bytes_concat(flatten(initial_pieces(prev)), seq![c]);
        lemma_byte_tables_inverse(bytes.last() as int);
        assert(seq![c].drop_last() =~= Seq::<char>::empty());
        assert(token_bytes(Seq::<char>::empty()) == Seq::<u8>::empty());
        assert(seq![c].last() == c);
        assert(token_bytes(seq![c]) == token_bytes(seq![c].drop_last()) + char_bytes(seq![c].last()));
        assert(token_bytes(seq![c]) =~= char_bytes(c));
        assert(bytes =~= prev + seq![bytes.last()]);
    }
}

/// A covered piece's ids decode to the piece's UTF-8 bytes.
proof fn lemma_piece_bytes(t: TokenizerModel, p: Seq<char>)
    requires
        piece_covered(t, p),
    ensures
        ids_bytes(t, piece_ids(t, p)) == encode_utf8(p),
{
    if t.special.contains(p) {
        let id = token_id(t, p);
        assert(seq![id].drop_last() =~= Seq::<u32>::empty());
        assert(ids_bytes(t, Seq::<u32>::empty()) == Seq::<u8>::empty());
        assert(seq![id].last() == id);
        assert(t.id_to_token.get(id) == Some(p));
        assert(ids_bytes(t, seq![id]) == ids_bytes(t, seq![id].drop_last()) + token_bytes(p));
        assert(ids_bytes(t, seq![id]) =~= token_bytes(p));
    } else {
        let init = initial_pieces(encode_utf8(p));
        let merged = spec_bpe(t.merges, init);
        lemma_ids_bytes_of_tokens(t, merged);
        lemma_bpe_preserves_text(t.merges, init);
        lemma_initial_pieces_bytes(encode_utf8(p));
    }
}

/// The ids of covered pieces decode to the UTF-8 bytes of their concatenation.
proof fn lemma_pieces_bytes(t: TokenizerModel, ps: Seq<Seq<char>>)
    requires
        forall|i: int| 0 <= i < ps.len() ==> piece_covered(t, #[trigger] ps[i]),
    ensures
        ids_bytes(t, ids_of_pieces(t, ps)) == encode_utf8(flatten(ps)),
    decreases ps.len(),
{
    if ps.len() == 0 {
        assert(encode_utf8(flatten(ps)) =~= Seq::<u8>::empty());
    } else {
        let prev = ps.drop_last();
        assert forall|i: int| 0 <= i < prev.len() implies piece_covered(t, #[trigger] prev[i]) by {
            assert(prev[i] == ps[i]);
        }
        lemma_pieces_bytes(t, prev);
        assert(piece_covered(t, ps[ps.len() - 1]));
        lemma_piece_bytes(t, ps.last());
        lemma_ids_bytes_concat(t, ids_of_pieces(t, prev), piece_ids(t, ps.last()));
        lemma_encode_utf8_concat(flatten(prev), ps.last());
    }
}

/// Decoding what encoding produced gives back the text, provided that every
/// produced token is in the vocabulary under an id that maps back to it and
/// that special tokens met in the text are spelled with characters that
/// decode to their own UTF-8 bytes.
pub proof fn lemma_decode_encode_roundtrip(t: TokenizerModel, text: Seq<char>)
    requires
        no_empty_token(t.special),
        encoding_covered(t, text),
    ensures
        spec_decode(t, spec_encode(t, text)) == text,
{
    let ps = spec_split(t.special, text);
    lemma_pieces_bytes(t, ps);
    lemma_split_preserves_text(t.special, text);
    encode_utf8_valid_utf8(text);
    encode_utf8_decode_utf8(text);
}

} // verus!
