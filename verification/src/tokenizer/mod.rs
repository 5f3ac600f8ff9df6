//! Tokenizers for converting between text and token ids.
//!
//! Implements a byte-level BPE tokenizer compatible with the Hugging Face
//! `tokenizer.json` format used by models like GPT-2, Qwen2, and SmolLM.
//! Pre-tokenizers (regex splitting) are not supported.
pub mod bpe;
pub mod bytes;
pub mod laws;
pub mod split;

pub use bytes::{byte_decoder, byte_encoder};

use crate::text::{push_char, str_chars, str_eq, string_from_chars};
use bytes::{lemma_byte_char_injective, spec_byte_char, spec_byte_code};
use split::{
    earliest_special, first_occurrence, is_earliest, is_first_occurrence, lemma_earliest_unique,
    lemma_first_occurrence_unique, no_empty_token, occurs_at, spec_split,
};
use vstd::string::StringSliceAdditionalSpecFns;
use vstd::utf8::{decode_utf8, encode_scalar, encode_utf8, valid_utf8};
use bpe::{
    is_best_pair, lemma_best_pair_unique, merge_at, merge_rank, merge_rank_upto, pair_rank, spec_bpe,
    MergeList,
};
use std::collections::HashMap;
use vstd::prelude::*;
use vstd::slice::slice_subrange;
use vstd::string::StringExecFns;

verus! {

broadcast use vstd::std_specs::hash::group_hash_axioms;

/// Errors building a tokenizer.
#[derive(Debug)]
pub enum TokenizerError {
    /// The tokenizer model is not byte-pair encoding.
    UnsupportedModel(String),
}

/// A byte-level BPE tokenizer.
#[derive(Debug)]
pub struct BpeTokenizer {
    /// token string -> id, in the order given (the first entry for a token wins)
    vocab: Vec<(String, u32)>,
    /// id -> token string
    id_to_token: HashMap<u32, String>,
    /// (first, second, rank) merge rules (lower rank = higher priority)
    merges: Vec<(String, String, usize)>,
    /// Special tokens that are split out before BPE, without repetitions.
    special_tokens: Vec<String>,
    /// Token id of the unknown token.
    unk_id: u32,
}

/// The mathematical content of a [`BpeTokenizer`].
pub struct TokenizerModel {
    pub vocab: Seq<(Seq<char>, u32)>,
    pub id_to_token: Map<u32, Seq<char>>,
    pub merges: MergeList,
    pub special: Seq<Seq<char>>,
    pub unk_id: u32,
}

/// The id of a token string: the first vocabulary entry for it from `i` on.
pub open spec fn vocab_find(v: Seq<(Seq<char>, u32)>, tok: Seq<char>, i: int) -> Option<u32>
    decreases v.len() - i,
{
    if i < 0 || i >= v.len() {
        None
    } else if v[i].0 == tok {
        Some(v[i].1)
    } else {
        vocab_find(v, tok, i + 1)
    }
}

/// The id of a token string, or the unknown-token id.
pub open spec fn token_id(t: TokenizerModel, tok: Seq<char>) -> u32 {
    match vocab_find(t.vocab, tok, 0) {
        Some(id) => id,
        None => t.unk_id,
    }
}

/// The id -> token map of a vocabulary: entries are entered in order, so for
/// an id shared by several tokens the last one wins.
pub open spec fn spec_id_map(v: Seq<(Seq<char>, u32)>) -> Map<u32, Seq<char>>
    decreases v.len(),
{
    if v.len() == 0 {
        Map::empty()
    } else {
        spec_id_map(v.drop_last()).insert(v.last().1, v.last().0)
    }
}

/// The distinct strings of a sequence, in order of first appearance.
pub open spec fn spec_dedup(s: Seq<Seq<char>>) -> Seq<Seq<char>>
    decreases s.len(),
{
    if s.len() == 0 {
        Seq::empty()
    } else {
        let d = spec_dedup(s.drop_last());
        if d.contains(s.last()) {
            d
        } else {
            d.push(s.last())
        }
    }
}

/// Unicode `White_Space` characters.
pub open spec fn is_whitespace(c: char) -> bool {
    let u = c as u32;
    (0x09 <= u <= 0x0D) || u == 0x20 || u == 0x85 || u == 0xA0 || u == 0x1680 || (0x2000 <= u
        <= 0x200A) || u == 0x2028 || u == 0x2029 || u == 0x202F || u == 0x205F || u == 0x3000
}

/// The first position from `i` on that is not whitespace (or the end).
pub open spec fn skip_ws(s: Seq<char>, i: int) -> int
    decreases s.len() - i,
{
    if i < 0 || i >= s.len() || !is_whitespace(s[i]) {
        if i < 0 {
            0
        } else if i > s.len() {
            s.len() as int
        } else {
            i
        }
    } else {
        skip_ws(s, i + 1)
    }
}

/// The first position from `i` on that is whitespace (or the end).
pub open spec fn word_end(s: Seq<char>, i: int) -> int
    decreases s.len() - i,
{
    if i < 0 || i >= s.len() || is_whitespace(s[i]) {
        if i < 0 {
            0
        } else if i > s.len() {
            s.len() as int
        } else {
            i
        }
    } else {
        word_end(s, i + 1)
    }
}

/// The first two whitespace-separated words of a merge line (empty when missing).
pub open spec fn merge_words(line: Seq<char>) -> (Seq<char>, Seq<char>) {
    let s1 = skip_ws(line, 0);
    let e1 = word_end(line, s1);
    let s2 = skip_ws(line, e1);
    let e2 = word_end(line, s2);
    (line.subrange(s1, e1), line.subrange(s2, e2))
}

/// The merge rules of the first `n` merge lines: a line whose two first
/// words are both present becomes a rule ranked by the line's index.
pub open spec fn spec_merges(lines: Seq<Seq<char>>, n: int) -> MergeList
    decreases n,
{
    if n <= 0 || n > lines.len() {
        Seq::empty()
    } else {
        let (a, b) = merge_words(lines[n - 1]);
        if a.len() > 0 && b.len() > 0 {
            spec_merges(lines, n - 1).push((a, b, (n - 1) as usize))
        } else {
            spec_merges(lines, n - 1)
        }
    }
}

/// No character of `w` is whitespace.
pub open spec fn is_word(w: Seq<char>) -> bool {
    forall|i: int| 0 <= i < w.len() ==> !#[trigger] is_whitespace(w[i])
}

/// A run of non-whitespace from `i` to `j`, followed by whitespace or the
/// end, is one word.
proof fn lemma_word_end_at(s: Seq<char>, i: int, j: int)
    requires
        0 <= i <= j <= s.len(),
        forall|k: int| i <= k < j ==> !#[trigger] is_whitespace(s[k]),
        j == s.len() || is_whitespace(s[j]),
    ensures
        word_end(s, i) == j,
    decreases j - i,
{
    if i < j {
        lemma_word_end_at(s, i + 1, j);
    }
}

/// The two words of a merge line written as `a`, one space, `b` are `a` and
/// `b`, in that order.
pub proof fn lemma_merge_words_of_line(a: Seq<char>, b: Seq<char>)
    requires
        a.len() > 0,
        b.len() > 0,
        is_word(a),
        is_word(b),
    ensures
        merge_words(a + seq![' '] + b) == (a, b),
{
    let line = a + seq![' '] + b;
    let n = a.len() as int;
    assert(line[0] == a[0]);
    assert(!is_whitespace(line[0]));
    assert(skip_ws(line, 0) == 0);
    assert forall|k: int| 0 <= k < n implies !#[trigger] is_whitespace(line[k]) by {
        assert(line[k] == a[k]);
    }
    assert(line[n] == ' ');
    assert(is_whitespace(' ')) by {
        assert((' ' as u32) == 0x20);
    }
    lemma_word_end_at(line, 0, n);
    assert(line[n + 1] == b[0]);
    assert(skip_ws(line, n + 1) == n + 1);
    assert(skip_ws(line, n) == n + 1);
    assert forall|k: int| n + 1 <= k < line.len() implies !#[trigger] is_whitespace(line[k]) by {
        assert(line[k] == b[k - n - 1]);
    }
    lemma_word_end_at(line, n + 1, line.len() as int);
    assert(line.subrange(0, n) =~= a);
    assert(line.subrange(n + 1, line.len() as int) =~= b);
}

/// Every rule built from the first `n` merge lines stays among the rules
/// built from more of them.
proof fn lemma_spec_merges_grow(lines: Seq<Seq<char>>, k: int, n: int, rule: (Seq<char>, Seq<char>, usize))
    requires
        0 < k <= n <= lines.len(),
        spec_merges(lines, k).contains(rule),
    ensures
        spec_merges(lines, n).contains(rule),
    decreases n - k,
{
    if k < n {
        let i = choose|i: int| 0 <= i < spec_merges(lines, k).len() && spec_merges(lines, k)[i] == rule;
        let (a, b) = merge_words(lines[k]);
        if a.len() > 0 && b.len() > 0 {
            assert(spec_merges(lines, k + 1)[i] == rule);
        } else {
            assert(spec_merges(lines, k + 1)[i] == rule);
        }
        lemma_spec_merges_grow(lines, k + 1, n, rule);
    }
}

/// A merge line written as two words `a` and `b` separated by one space
/// gives the rule that joins `a` followed by `b`, ranked by the line's index.
pub proof fn lemma_merge_line_rule(lines: Seq<Seq<char>>, k: int, a: Seq<char>, b: Seq<char>)
    requires
        0 <= k < lines.len(),
        lines[k] == a + seq![' '] + b,
        a.len() > 0,
        b.len() > 0,
        is_word(a),
        is_word(b),
    ensures
        spec_merges(lines, lines.len() as int).contains((a, b, k as usize)),
{
    lemma_merge_words_of_line(a, b);
    let ms = spec_merges(lines, k + 1);
    assert(ms.last() == (a, b, k as usize));
    assert(ms.contains((a, b, k as usize)));
    lemma_spec_merges_grow(lines, k + 1, lines.len() as int, (a, b, k as usize));
}

impl View for BpeTokenizer {
    type V = TokenizerModel;

    closed spec fn view(&self) -> TokenizerModel {
        TokenizerModel {
            vocab: self.vocab@.map_values(|e: (String, u32)| (e.0@, e.1)),
            id_to_token: self.id_to_token@.map_values(|s: String| s@),
            merges: self.merges@.map_values(|e: (String, String, usize)| (e.0@, e.1@, e.2)),
            special: self.special_tokens@.map_values(|s: String| s@),
            unk_id: self.unk_id,
        }
    }
}

impl BpeTokenizer {
    /// The id -> token map is the one the vocabulary determines.
    #[verifier::type_invariant]
    spec fn well_formed(self) -> bool {
        self@.id_to_token == spec_id_map(self@.vocab)
    }
}

/// Decide whether a character is Unicode whitespace.
pub fn char_is_whitespace(c: char) -> (res: bool)
    ensures
        res == is_whitespace(c),
{
    let u = c as u32;
    (0x09 <= u && u <= 0x0D) || u == 0x20 || u == 0x85 || u == 0xA0 || u == 0x1680 || (0x2000 <= u
        && u <= 0x200A) || u == 0x2028 || u == 0x2029 || u == 0x202F || u == 0x205F || u == 0x3000
}

} // verus!

verus! {

/// The model of a vocabulary list.
pub open spec fn vocab_model(v: Seq<(String, u32)>) -> Seq<(Seq<char>, u32)> {
    v.map_values(|e: (String, u32)| (e.0@, e.1))
}

/// Look a token string up in a vocabulary list.
fn vocab_lookup(vocab: &Vec<(String, u32)>, tok: &str) -> (res: Option<u32>)
    ensures
        res == vocab_find(vocab_model(vocab@), tok@, 0),
{
    let ghost v = vocab_model(vocab@);
    let n = vocab.len();
    let mut i: usize = 0;
    while i < n
        invariant
            n == vocab@.len(),
            v == vocab_model(vocab@),
            i <= n,
            vocab_find(v, tok@, 0) == vocab_find(v, tok@, i as int),
        decreases n - i,
    {
        if str_eq(vocab[i].0.as_str(), tok) {
            return Some(vocab[i].1);
        }
        i = i + 1;
    }
    None
}

fn skip_whitespace(cs: &Vec<char>, i: usize) -> (res: usize)
    requires
        i <= cs@.len(),
    ensures
        res == skip_ws(cs@, i as int),
        i <= res <= cs@.len(),
{
    let mut j = i;
    while j < cs.len() && char_is_whitespace(cs[j])
        invariant
            i <= j <= cs@.len(),
            skip_ws(cs@, i as int) == skip_ws(cs@, j as int),
        decreases cs@.len() - j,
    {
        j = j + 1;
    }
    j
}

fn find_word_end(cs: &Vec<char>, i: usize) -> (res: usize)
    requires
        i <= cs@.len(),
    ensures
        res == word_end(cs@, i as int),
        i <= res <= cs@.len(),
{
    let mut j = i;
    while j < cs.len() && !char_is_whitespace(cs[j])
        invariant
            i <= j <= cs@.len(),
            word_end(cs@, i as int) == word_end(cs@, j as int),
        decreases cs@.len() - j,
    {
        j = j + 1;
    }
    j
}

/// The first two whitespace-separated words of a merge line.
fn split_merge_line(line: &str) -> (res: (String, String))
    ensures
        (res.0@, res.1@) == merge_words(line@),
{
    let cs = str_chars(line);
    let s1 = skip_whitespace(&cs, 0);
    let e1 = find_word_end(&cs, s1);
    let s2 = skip_whitespace(&cs, e1);
    let e2 = find_word_end(&cs, s2);
    let a = string_from_chars(slice_subrange(cs.as_slice(), s1, e1));
    let b = string_from_chars(slice_subrange(cs.as_slice(), s2, e2));
    (a, b)
}

impl BpeTokenizer {
    /// Build a BPE tokenizer from the parts of a Hugging Face `tokenizer.json`:
    /// the model type, the vocabulary, the merge lines, the contents of the
    /// added tokens and the name of the unknown token.
    pub fn from_parts(
        kind: String,
        vocab: Vec<(String, u32)>,
        merge_lines: Vec<String>,
        added_tokens: Vec<String>,
        unk_token: Option<String>,
    ) -> (res: Result<Self, TokenizerError>)
        ensures
            kind@ != "BPE"@ ==> (res matches Err(TokenizerError::UnsupportedModel(k)) && k@ == kind@),
            kind@ == "BPE"@ ==> (res matches Ok(t) && {
                &&& t@.vocab == vocab_model(vocab@)
                &&& t@.id_to_token == spec_id_map(vocab_model(vocab@))
                &&& t@.merges == spec_merges(
                    merge_lines@.map_values(|s: String| s@),
                    merge_lines@.len() as int,
                )
                &&& t@.special == spec_dedup(added_tokens@.map_values(|s: String| s@))
                &&& t@.unk_id == match unk_token {
                    Some(u) => match vocab_find(vocab_model(vocab@), u@, 0) {
                        Some(id) => id,
                        None => 0,
                    },
                    None => 0,
                }
            }),
    {
        if !str_eq(kind.as_str(), "BPE") {
            return Err(TokenizerError::UnsupportedModel(kind));
        }
        let ghost v = vocab_model(vocab@);
        // id -> token
        let mut id_to_token: HashMap<u32, String> = HashMap::new();
        let n = vocab.len();
        let mut i: usize = 0;
        assert(v.take(0) =~= Seq::<(Seq<char>, u32)>::empty());
        assert(id_to_token@.map_values(|s: String| s@) =~= Map::<u32, Seq<char>>::empty());
        while i < n
            invariant
                n == vocab@.len(),
                v == vocab_model(vocab@),
                i <= n,
                id_to_token@.map_values(|s: String| s@) == spec_id_map(v.take(i as int)),
            decreases n - i,
        {
            let ghost before = id_to_token@;
            let token = vocab[i].0.clone();
            id_to_token.insert(vocab[i].1, token);
            assert(v.take(i + 1).drop_last() =~= v.take(i as int));
            assert(id_to_token@.map_values(|s: String| s@) =~= before.map_values(|s: String| s@).insert(
                v[i as int].1,
                v[i as int].0,
            ));
            i = i + 1;
        }
        assert(v.take(n as int) =~= v);
        // merge rules
        let ghost lines = merge_lines@.map_values(|s: String| s@);
        let mut merges: Vec<(String, String, usize)> = Vec::new();
        let m = merge_lines.len();
        let mut rank: usize = 0;
        assert(merges@.map_values(|e: (String, String, usize)| (e.0@, e.1@, e.2)) =~= spec_merges(lines, 0));
        while rank < m
            invariant
                m == merge_lines@.len(),
                lines == merge_lines@.map_values(|s: String| s@),
                rank <= m,
                merges@.map_values(|e: (String, String, usize)| (e.0@, e.1@, e.2)) == spec_merges(
                    lines,
                    rank as int,
                ),
            decreases m - rank,
        {
            let ghost before = merges@.map_values(|e: (String, String, usize)| (e.0@, e.1@, e.2));
            let (a, b) = split_merge_line(merge_lines[rank].as_str());
            assert(lines[rank as int] == merge_lines@[rank as int]@);
            if !a.as_str().is_empty() && !b.as_str().is_empty() {
                merges.push((a, b, rank));
                assert(merges@.map_values(|e: (String, String, usize)| (e.0@, e.1@, e.2)) =~= before.push(
                    (a@, b@, rank),
                ));
            }
            rank = rank + 1;
        }
        // special tokens
        let mut special_tokens: Vec<String> = Vec::new();
        let ghost added = added_tokens@.map_values(|s: String| s@);
        let k = added_tokens.len();
        let mut j: usize = 0;
        assert(added.take(0) =~= Seq::<Seq<char>>::empty());
        assert(special_tokens@.map_values(|s: String| s@) =~= Seq::<Seq<char>>::empty());
        while j < k
            invariant
                k == added_tokens@.len(),
                added == added_tokens@.map_values(|s: String| s@),
                j <= k,
                special_tokens@.map_values(|s: String| s@) == spec_dedup(added.take(j as int)),
            decreases k - j,
        {
            let ghost before = special_tokens@.map_values(|s: String| s@);
            assert(added.take(j + 1).drop_last() =~= added.take(j as int));
            let found = contains_string(&special_tokens, added_tokens[j].as_str());
            if !found {
                special_tokens.push(added_tokens[j].clone());
                assert(special_tokens@.map_values(|s: String| s@) =~= before.push(added[j as int]));
            }
            j = j + 1;
        }
        assert(added.take(k as int) =~= added);
        let unk_id = match &unk_token {
            Some(u) => match vocab_lookup(&vocab, u.as_str()) {
                Some(id) => id,
                None => 0,
            },
            None => 0,
        };
        let t = BpeTokenizer { vocab, id_to_token, merges, special_tokens, unk_id };
        Ok(t)
    }
}

/// Whether a list of strings holds the given string.
fn contains_string(list: &Vec<String>, s: &str) -> (res: bool)
    ensures
        res == list@.map_values(|x: String| x@).contains(s@),
{
    let n = list.len();
    let mut i: usize = 0;
    while i < n
        invariant
            n == list@.len(),
            i <= n,
            forall|j: int| 0 <= j < i ==> list@[j]@ != s@,
        decreases n - i,
    {
        if str_eq(list[i].as_str(), s) {
            assert(list@.map_values(|x: String| x@)[i as int] == s@);
            return true;
        }
        i = i + 1;
    }
    let ghost views = list@.map_values(|x: String| x@);
    assert(!views.contains(s@)) by {
        if views.contains(s@) {
            let j = choose|j: int| 0 <= j < views.len() && #[trigger] views[j] == s@;
            assert(list@[j]@ == s@);
        }
    }
    false
}

} // verus!

verus! {

/// The models of a list of strings.
pub open spec fn strings_model(v: Seq<String>) -> Seq<Seq<char>> {
    v.map_values(|s: String| s@)
}

impl BpeTokenizer {
    /// The rank of the merge rule for `a` followed by `b`, if any.
    fn merge_rank(&self, a: &String, b: &String) -> (res: Option<usize>)
        ensures
            res == merge_rank(self@.merges, a@, b@),
    {
        let ghost m = self@.merges;
        let mut i = self.merges.len();
        while i > 0
            invariant
                m == self@.merges,
                m.len() == self.merges@.len(),
                i <= self.merges@.len(),
                merge_rank(m, a@, b@) == merge_rank_upto(m, a@, b@, i as int),
            decreases i,
        {
            let e = &self.merges[i - 1];
            assert(m[i - 1] == (e.0@, e.1@, e.2));
            if e.0 == *a && e.1 == *b {
                return Some(e.2);
            }
            i = i - 1;
        }
        None
    }

    /// Repeatedly merge the adjacent pair with the best (lowest) rank until
    /// no adjacent pair has a merge rule.
    pub fn bpe(&self, pieces: Vec<String>) -> (res: Vec<String>)
        ensures
            strings_model(res@) == spec_bpe(self@.merges, strings_model(pieces@)),
    {
        let ghost m = self@.merges;
        let ghost orig = strings_model(pieces@);
        let mut pieces = pieces;
        if pieces.len() < 2 {
            return pieces;
        }
        let mut done = false;
        while !done
            invariant
                m == self@.merges,
                pieces@.len() >= 1,
                !done ==> spec_bpe(m, orig) == spec_bpe(m, strings_model(pieces@)),
                done ==> spec_bpe(m, orig) == strings_model(pieces@),
            decreases 2 * pieces@.len() + if done {
                0int
            } else {
                1int
            },
        {
            let ghost p = strings_model(pieces@);
            let n = pieces.len();
            let mut best_rank: Option<usize> = None;
            let mut best_idx: usize = 0;
            let mut i: usize = 0;
            while i < n - 1
                invariant
                    n == pieces@.len(),
                    n >= 1,
                    p == strings_model(pieces@),
                    m == self@.merges,
                    i <= n - 1,
                    best_rank is None ==> forall|j: int|
                        0 <= j < i ==> (#[trigger] pair_rank(m, p, j)) is None,
                    best_rank matches Some(r) ==> {
                        &&& best_idx < i
                        &&& pair_rank(m, p, best_idx as int) == Some(r)
                        &&& forall|j: int|
                            0 <= j < i && (#[trigger] pair_rank(m, p, j)) is Some ==> r
                                <= pair_rank(m, p, j)->0
                        &&& forall|j: int|
                            0 <= j < best_idx && (#[trigger] pair_rank(m, p, j)) is Some ==> r
                                < pair_rank(m, p, j)->0
                    },
                decreases n - 1 - i,
            {
                let rank = self.merge_rank(&pieces[i], &pieces[i + 1]);
                assert(pair_rank(m, p, i as int) == rank);
                if let Some(r) = rank {
                    let better = match best_rank {
                        None => true,
                        Some(b) => r < b,
                    };
                    if better {
                        best_rank = Some(r);
                        best_idx = i;
                    }
                }
                i = i + 1;
            }
            match best_rank {
                Some(_) => {
                    proof {
                        assert(is_best_pair(m, p, best_idx as int));
                        let c = choose|c: int| is_best_pair(m, p, c);
                        lemma_best_pair_unique(m, p, c, best_idx as int);
                    }
                    let mut merged = pieces[best_idx].clone();
                    merged.append(pieces[best_idx + 1].as_str());
                    pieces.set(best_idx, merged);
                    pieces.remove(best_idx + 1);
                    assert(strings_model(pieces@) =~= merge_at(p, best_idx as int));
                },
                None => {
                    proof {
                        assert(!exists|c: int| is_best_pair(m, p, c)) by {
                            if exists|c: int| is_best_pair(m, p, c) {
                                let c = choose|c: int| is_best_pair(m, p, c);
                                assert(pair_rank(m, p, c) is Some);
                            }
                        }
                    }
                    done = true;
                },
            }
        }
        pieces
    }
}

} // verus!

verus! {

/// The pieces byte-level BPE starts from: one single-character piece per
/// byte, the character that stands for that byte.
pub open spec fn initial_pieces(bytes: Seq<u8>) -> Seq<Seq<char>> {
    Seq::new(bytes.len(), |i: int| seq![spec_byte_char(bytes[i] as int)])
}

/// Token ids of a piece of text without special tokens: its UTF-8 bytes as
/// byte characters, merged by BPE, each merged piece looked up in the
/// vocabulary (unknown pieces get the unknown-token id).
pub open spec fn spec_encode_piece(t: TokenizerModel, text: Seq<char>) -> Seq<u32> {
    spec_bpe(t.merges, initial_pieces(encode_utf8(text))).map_values(|s: Seq<char>| token_id(t, s))
}

/// `needle` occurs in `hay` at `from + i`.
fn match_at(hay: &Vec<char>, at: usize, needle: &Vec<char>) -> (res: bool)
    ensures
        res == occurs_at(hay@, needle@, at as int),
{
    let n = needle.len();
    let hl = hay.len();
    if at > hl || n > hl - at {
        return false;
    }
    let mut j: usize = 0;
    while j < n
        invariant
            n == needle@.len(),
            hl == hay@.len(),
            at + n <= hl,
            j <= n,
            forall|k: int| 0 <= k < j ==> hay@[at + k] == needle@[k],
        decreases n - j,
    {
        if hay[at + j] != needle[j] {
            assert(hay@.subrange(at as int, at + n)[j as int] != needle@[j as int]);
            return false;
        }
        j = j + 1;
    }
    assert(hay@.subrange(at as int, at + n) =~= needle@);
    true
}

/// Where `needle` first occurs in `hay` from position `from` on, relative to `from`.
fn find_from(hay: &Vec<char>, from: usize, needle: &Vec<char>) -> (res: Option<usize>)
    requires
        from <= hay@.len(),
    ensures
        match first_occurrence(hay@.skip(from as int), needle@) {
            Some(p) => res matches Some(r) && r as int == p,
            None => res is None,
        },
{
    let ghost rem = hay@.skip(from as int);
    let n = needle.len();
    let len = hay.len();
    if n == 0 {
        proof {
            assert(rem.subrange(0, 0) =~= needle@);
            assert(is_first_occurrence(rem, needle@, 0));
            let c = choose|c: int| is_first_occurrence(rem, needle@, c);
            lemma_first_occurrence_unique(rem, needle@, c, 0);
        }
        return Some(0);
    }
    let mut i: usize = 0;
    while n <= len - from - i
        invariant
            len == hay@.len(),
            n == needle@.len(),
            n > 0,
            from <= len,
            rem == hay@.skip(from as int),
            from + i <= len,
            forall|j: int| 0 <= j < i ==> !#[trigger] occurs_at(rem, needle@, j),
        decreases len - from - i,
    {
        let found = match_at(hay, from + i, needle);
        assert(occurs_at(rem, needle@, i as int) == occurs_at(hay@, needle@, from + i)) by {
            if from + i + n <= len {
                assert(rem.subrange(i as int, i + n) =~= hay@.subrange(from + i, from + i + n));
            }
        }
        if found {
            proof {
                assert(is_first_occurrence(rem, needle@, i as int));
                let c = choose|c: int| is_first_occurrence(rem, needle@, c);
                lemma_first_occurrence_unique(rem, needle@, c, i as int);
            }
            return Some(i);
        }
        i = i + 1;
    }
    proof {
        assert(!exists|c: int| is_first_occurrence(rem, needle@, c)) by {
            if exists|c: int| is_first_occurrence(rem, needle@, c) {
                let c = choose|c: int| is_first_occurrence(rem, needle@, c);
                assert(occurs_at(rem, needle@, c));
            }
        }
    }
    None
}

impl BpeTokenizer {
    /// Token ids of a piece of text that holds no special token.
    fn encode_piece(&self, text: &str) -> (res: Vec<u32>)
        ensures
            res@ == spec_encode_piece(self@, text@),
    {
        let encoder = byte_encoder();
        let bytes = text.as_bytes();
        let ghost b = encode_utf8(text@);
        assert(bytes@ == b);
        let mut initial: Vec<String> = Vec::new();
        let n = bytes.len();
        let mut i: usize = 0;
        while i < n
            invariant
                n == bytes@.len(),
                bytes@ == b,
                encoder@.len() == 256,
                forall|k: int| 0 <= k < 256 ==> #[trigger] encoder@[k] == spec_byte_char(k),
                i <= n,
                strings_model(initial@) =~= initial_pieces(b).take(i as int),
            decreases n - i,
        {
            let mut piece = String::new();
            let c = encoder[bytes[i] as usize];
            push_char(&mut piece, c);
            assert(piece@ =~= seq![spec_byte_char(b[i as int] as int)]);
            let ghost before = strings_model(initial@);
            initial.push(piece);
            assert(strings_model(initial@) =~= before.push(piece@));
            assert(initial_pieces(b).take(i + 1) =~= initial_pieces(b).take(i as int).push(
                initial_pieces(b)[i as int],
            ));
            i = i + 1;
        }
        assert(initial_pieces(b).take(n as int) =~= initial_pieces(b));
        let merged = self.bpe(initial);
        let ghost pieces = strings_model(merged@);
        let mut ids: Vec<u32> = Vec::new();
        let m = merged.len();
        let mut j: usize = 0;
        while j < m
            invariant
                m == merged@.len(),
                pieces == strings_model(merged@),
                j <= m,
                ids@ =~= pieces.take(j as int).map_values(|s: Seq<char>| token_id(self@, s)),
            decreases m - j,
        {
            proof {
                use_type_invariant(self);
            }
            let id = match vocab_lookup(&self.vocab, merged[j].as_str()) {
                Some(id) => id,
                None => self.unk_id,
            };
            ids.push(id);
            assert(ids@ =~= pieces.take(j + 1).map_values(|s: Seq<char>| token_id(self@, s)));
            j = j + 1;
        }
        assert(pieces.take(m as int) =~= pieces);
        ids
    }
}

} // verus!

verus! {

impl BpeTokenizer {
    /// Split `text` around special tokens; see [`spec_split`].
    fn split_special(&self, text: &str) -> (res: Vec<String>)
        requires
            text@.len() == 0 || no_empty_token(self@.special),
        ensures
            strings_model(res@) == spec_split(self@.special, text@),
    {
        let ghost sp = self@.special;
        let mut result: Vec<String> = Vec::new();
        if self.special_tokens.len() == 0 {
            result.push(String::from_str(text));
            assert(strings_model(result@) =~= seq![text@]);
            return result;
        }
        let chars = str_chars(text);
        if chars.len() == 0 {
            assert(strings_model(result@) =~= Seq::<Seq<char>>::empty());
            return result;
        }
        let mut specials: Vec<Vec<char>> = Vec::new();
        let ns = self.special_tokens.len();
        let mut k: usize = 0;
        while k < ns
            invariant
                ns == self.special_tokens@.len(),
                sp == self@.special,
                sp.len() == ns,
                k <= ns,
                specials@.len() == k,
                forall|j: int| 0 <= j < k ==> (#[trigger] specials@[j])@ == sp[j],
            decreases ns - k,
        {
            assert(sp[k as int] == self.special_tokens@[k as int]@);
            specials.push(str_chars(self.special_tokens[k].as_str()));
            k = k + 1;
        }
        let len = chars.len();
        let mut start: usize = 0;
        assert(chars@.skip(0) =~= text@);
        assert(strings_model(result@) + spec_split(sp, chars@.skip(0)) =~= spec_split(sp, text@));
        while start < len
            invariant
                len == chars@.len(),
                ns == self.special_tokens@.len(),
                sp == self@.special,
                sp.len() == ns,
                ns > 0,
                no_empty_token(sp),
                specials@.len() == ns,
                forall|j: int| 0 <= j < ns ==> (#[trigger] specials@[j])@ == sp[j],
                start <= len,
                spec_split(sp, text@) == strings_model(result@) + spec_split(sp, chars@.skip(start as int)),
            decreases len - start,
        {
            let ghost rem = chars@.skip(start as int);
            let mut found: Option<(usize, usize)> = None;
            let mut k: usize = 0;
            while k < ns
                invariant
                    len == chars@.len(),
                    start < len,
                    rem == chars@.skip(start as int),
                    ns == specials@.len(),
                    sp.len() == ns,
                    forall|j: int| 0 <= j < ns ==> (#[trigger] specials@[j])@ == sp[j],
                    k <= ns,
                    found is None ==> forall|j: int|
                        0 <= j < k ==> (#[trigger] first_occurrence(rem, sp[j])) is None,
                    found matches Some((p, kk)) ==> {
                        &&& kk < k
                        &&& first_occurrence(rem, sp[kk as int]) == Some(p as int)
                        &&& forall|j: int|
                            0 <= j < k && (#[trigger] first_occurrence(rem, sp[j])) is Some ==> p
                                <= first_occurrence(rem, sp[j])->0
                        &&& forall|j: int|
                            0 <= j < kk && (#[trigger] first_occurrence(rem, sp[j])) is Some ==> p
                                < first_occurrence(rem, sp[j])->0
                    },
                decreases ns - k,
            {
                match find_from(&chars, start, &specials[k]) {
                    Some(pos) => {
                        let better = match found {
                            None => true,
                            Some((p, _)) => pos < p,
                        };
                        if better {
                            found = Some((pos, k));
                        }
                    },
                    None => {},
                }
                k = k + 1;
            }
            match found {
                None => {
                    proof {
                        assert(!exists|kk: int, p: int| is_earliest(sp, rem, kk, p)) by {
                            if exists|kk: int, p: int| is_earliest(sp, rem, kk, p) {
                                let (kk, p) = choose|kk: int, p: int| is_earliest(sp, rem, kk, p);
                                assert(first_occurrence(rem, sp[kk]) is Some);
                            }
                        }
                        assert(earliest_special(sp, rem) is None);
                    }
                    let tail = string_from_chars(slice_subrange(chars.as_slice(), start, len));
                    let ghost before = strings_model(result@);
                    result.push(tail);
                    assert(chars@.subrange(start as int, len as int) =~= rem);
                    assert(strings_model(result@) =~= before + seq![rem]);
                    return result;
                },
                Some((pos, kk)) => {
                    proof {
                        assert(is_earliest(sp, rem, kk as int, pos as int));
                        let (k2, p2) = choose|k2: int, p2: int| is_earliest(sp, rem, k2, p2);
                        lemma_earliest_unique(sp, rem, k2, p2, kk as int, pos as int);
                        let c = choose|c: int| is_first_occurrence(rem, sp[kk as int], c);
                        assert(is_first_occurrence(rem, sp[kk as int], pos as int));
                        assert(sp[kk as int].len() > 0);
                    }
                    let tok_len = specials[kk].len();
                    let ghost tok = sp[kk as int];
                    let ghost before = strings_model(result@);
                    let ghost rest = rem.skip(pos + tok.len());
                    if pos > 0 {
                        let head = string_from_chars(slice_subrange(chars.as_slice(), start, start + pos));
                        result.push(head);
                        assert(chars@.subrange(start as int, start + pos) =~= rem.take(pos as int));
                    }
                    assert(sp[kk as int] == self.special_tokens@[kk as int]@);
                    result.push(self.special_tokens[kk].clone());
                    proof {
                        let hd = if pos == 0 {
                            seq![tok]
                        } else {
                            seq![rem.take(pos as int), tok]
                        };
                        assert(strings_model(result@) =~= before + hd);
                        assert(spec_split(sp, rem) == hd + spec_split(sp, rest));
                        assert(rest =~= chars@.skip(start + pos + tok_len));
                        assert(before + (hd + spec_split(sp, rest)) =~= before + hd + spec_split(sp, rest));
                    }
                    start = start + pos + tok_len;
                },
            }
        }
        assert(chars@.skip(len as int) =~= Seq::<char>::empty());
        assert(strings_model(result@) + Seq::<Seq<char>>::empty() =~= strings_model(result@));
        result
    }
}

} // verus!

verus! {

/// `String::from_utf8_lossy` of std: the text that a byte sequence decodes
/// to, with each invalid sequence replaced by U+FFFD.
pub uninterp spec fn utf8_lossy(bytes: Seq<u8>) -> Seq<char>;

/// `String::from_utf8_lossy` of std. Its result is named by [`utf8_lossy`]; on
/// valid UTF-8 it is exactly the decoded text.
#[verifier::external_body]
fn string_from_utf8_lossy(bytes: &[u8]) -> (res: String)
    ensures
        res@ == utf8_lossy(bytes@),
        valid_utf8(bytes@) ==> res@ == decode_utf8(bytes@),
{
    String::from_utf8_lossy(bytes).into_owned()
}

/// The UTF-8 bytes of one character: one byte below `0x80`, then two, three
/// or four bytes by the width of its code point.
fn char_to_utf8(c: char) -> (res: Vec<u8>)
    ensures
        res@ == encode_utf8(seq![c]),
{
    let scalar = c as u32;
    let mut out: Vec<u8> = Vec::new();
    if scalar <= 0x7F {
        out.push((scalar & 0x7F) as u8);
    } else if scalar <= 0x7FF {
        out.push(0xC0 | ((scalar >> 6) & 0x1F) as u8);
        out.push(0x80 | (scalar & 0x3F) as u8);
    } else if scalar <= 0xFFFF {
        out.push(0xE0 | ((scalar >> 12) & 0x0F) as u8);
        out.push(0x80 | ((scalar >> 6) & 0x3F) as u8);
        out.push(0x80 | (scalar & 0x3F) as u8);
    } else {
        out.push(0xF0 | ((scalar >> 18) & 0x7) as u8);
        out.push(0x80 | ((scalar >> 12) & 0x3F) as u8);
        out.push(0x80 | ((scalar >> 6) & 0x3F) as u8);
        out.push(0x80 | (scalar & 0x3F) as u8);
    }
    proof {
        assert(seq![c].drop_first() =~= Seq::<char>::empty());
        reveal_with_fuel(encode_utf8, 2);
        assert(encode_utf8(seq![c]) =~= encode_scalar(scalar) + Seq::<u8>::empty());
        assert(out@ =~= encode_scalar(scalar));
    }
    out
}

/// The byte a character stands for in the byte-level alphabet, if any.
pub open spec fn char_byte(c: char) -> Option<u8> {
    if exists|b: int| 0 <= b < 256 && spec_byte_code(b) == c as u32 {
        Some((choose|b: int| 0 <= b < 256 && spec_byte_code(b) == c as u32) as u8)
    } else {
        None
    }
}

/// The bytes a character of a token decodes to: the byte it stands for, or
/// else its own UTF-8 encoding.
pub open spec fn char_bytes(c: char) -> Seq<u8> {
    match char_byte(c) {
        Some(b) => seq![b],
        None => encode_utf8(seq![c]),
    }
}

/// The bytes a token decodes to, character by character.
pub open spec fn token_bytes(tok: Seq<char>) -> Seq<u8>
    decreases tok.len(),
{
    if tok.len() == 0 {
        Seq::empty()
    } else {
        token_bytes(tok.drop_last()) + char_bytes(tok.last())
    }
}

/// The bytes a sequence of token ids decodes to; ids without a token add nothing.
pub open spec fn ids_bytes(t: TokenizerModel, ids: Seq<u32>) -> Seq<u8>
    decreases ids.len(),
{
    if ids.len() == 0 {
        Seq::empty()
    } else {
        ids_bytes(t, ids.drop_last()) + match t.id_to_token.get(ids.last()) {
            Some(tok) => token_bytes(tok),
            None => Seq::empty(),
        }
    }
}

/// Bytes read as text: valid UTF-8 is decoded; otherwise invalid sequences
/// are replaced (see [`utf8_lossy`]).
pub open spec fn bytes_as_text(bytes: Seq<u8>) -> Seq<char> {
    if valid_utf8(bytes) {
        decode_utf8(bytes)
    } else {
        utf8_lossy(bytes)
    }
}

/// Decoding: the bytes of the tokens, read as text.
pub open spec fn spec_decode(t: TokenizerModel, ids: Seq<u32>) -> Seq<char> {
    bytes_as_text(ids_bytes(t, ids))
}

/// Token ids of one piece of split text: a special token is looked up
/// whole; any other piece goes through byte-level BPE.
pub open spec fn piece_ids(t: TokenizerModel, piece: Seq<char>) -> Seq<u32> {
    if t.special.contains(piece) {
        seq![token_id(t, piece)]
    } else {
        spec_encode_piece(t, piece)
    }
}

/// Token ids of a sequence of pieces, in order.
pub open spec fn ids_of_pieces(t: TokenizerModel, ps: Seq<Seq<char>>) -> Seq<u32>
    decreases ps.len(),
{
    if ps.len() == 0 {
        Seq::empty()
    } else {
        ids_of_pieces(t, ps.drop_last()) + piece_ids(t, ps.last())
    }
}

/// Encoding: split around special tokens, then encode each piece.
pub open spec fn spec_encode(t: TokenizerModel, text: Seq<char>) -> Seq<u32> {
    ids_of_pieces(t, spec_split(t.special, text))
}

/// Anything that can turn text into token ids and back.
pub trait Tokenizer {
    /// Whether [`Tokenizer::encode`] terminates on `text`.
    spec fn can_encode(&self, text: Seq<char>) -> bool;

    fn encode(&self, text: &str) -> Vec<u32>
        requires
            self.can_encode(text@),
    ;

    fn decode(&self, tokens: &[u32]) -> String;
}

impl BpeTokenizer {
    /// Whether some special token is empty; encoding a non-empty text with
    /// such a token does not terminate.
    pub fn has_empty_special_token(&self) -> (res: bool)
        ensures
            res == !no_empty_token(self@.special),
    {
        let n = self.special_tokens.len();
        let mut i: usize = 0;
        while i < n
            invariant
                n == self.special_tokens@.len(),
                n == self@.special.len(),
                i <= n,
                forall|j: int| 0 <= j < i ==> (#[trigger] self@.special[j]).len() > 0,
            decreases n - i,
        {
            assert(self@.special[i as int] == self.special_tokens@[i as int]@);
            if self.special_tokens[i].as_str().is_empty() {
                return true;
            }
            i = i + 1;
        }
        false
    }

    /// Bytes of one token, character by character, appended to `out`.
    fn push_token_bytes(token: &String, decoder: &HashMap<u32, u8>, out: &mut Vec<u8>)
        requires
            forall|b: int| 0 <= b < 256 ==> #[trigger] decoder@.contains_key(spec_byte_code(b)) && decoder@[spec_byte_code(b)] == b,
            forall|k: u32| #[trigger] decoder@.contains_key(k) ==> exists|b: int| 0 <= b < 256 && spec_byte_code(b) == k,
        ensures
            final(out)@ == old(out)@ + token_bytes(token@),
    {
        let cs = str_chars(token.as_str());
        let n = cs.len();
        let mut j: usize = 0;
        assert(cs@.take(0) =~= Seq::<char>::empty());
        assert(old(out)@ + Seq::<u8>::empty() =~= old(out)@);
        while j < n
            invariant
                n == cs@.len(),
                cs@ == token@,
                j <= n,
                forall|b: int| 0 <= b < 256 ==> #[trigger] decoder@.contains_key(spec_byte_code(b)) && decoder@[spec_byte_code(b)] == b,
                forall|k: u32| #[trigger] decoder@.contains_key(k) ==> exists|b: int| 0 <= b < 256 && spec_byte_code(b) == k,
                out@ == old(out)@ + token_bytes(cs@.take(j as int)),
            decreases n - j,
        {
            let c = cs[j];
            let ghost before = out@;
            assert(cs@.take(j + 1).drop_last() =~= cs@.take(j as int));
            match decoder.get(&(c as u32)) {
                Some(b) => {
                    proof {
                        let w = choose|w: int| 0 <= w < 256 && spec_byte_code(w) == c as u32;
                        let x = choose|x: int| 0 <= x < 256 && spec_byte_code(x) == c as u32;
                        if w != x {
                            lemma_byte_char_injective(w, x);
                        }
                        assert(char_byte(c) == Some(*b));
                    }
                    out.push(*b);
                },
                None => {
                    proof {
                        assert(char_byte(c) is None) by {
                            if exists|w: int| 0 <= w < 256 && spec_byte_code(w) == c as u32 {
                                let w = choose|w: int| 0 <= w < 256 && spec_byte_code(w) == c as u32;
                                assert(decoder@.contains_key(spec_byte_code(w)));
                            }
                        }
                    }
                    let mut u = char_to_utf8(c);
                    out.append(&mut u);
                },
            }
            assert(out@ =~= before + char_bytes(c));
            assert(old(out)@ + token_bytes(cs@.take(j + 1)) =~= old(out)@ + token_bytes(cs@.take(j as int)) + char_bytes(c));
            j = j + 1;
        }
        assert(cs@.take(n as int) =~= cs@);
    }
}

impl Tokenizer for BpeTokenizer {
    /// Splitting around an empty special token never ends on a non-empty
    /// text; an empty text always encodes.
    open spec fn can_encode(&self, text: Seq<char>) -> bool {
        text.len() == 0 || no_empty_token(self@.special)
    }

    fn encode(&self, text: &str) -> (res: Vec<u32>)
        ensures
            res@ == spec_encode(self@, text@),
    {
        let pieces = self.split_special(text);
        let ghost ps = strings_model(pieces@);
        let mut ids: Vec<u32> = Vec::new();
        let n = pieces.len();
        let mut i: usize = 0;
        assert(ps.take(0) =~= Seq::<Seq<char>>::empty());
        while i < n
            invariant
                n == pieces@.len(),
                ps == strings_model(pieces@),
                i <= n,
                ids@ == ids_of_pieces(self@, ps.take(i as int)),
            decreases n - i,
        {
            let piece = pieces[i].as_str();
            assert(ps[i as int] == piece@);
            assert(ps.take(i + 1).drop_last() =~= ps.take(i as int));
            assert(self@.special == self.special_tokens@.map_values(|s: String| s@));
            if contains_string(&self.special_tokens, piece) {
                proof {
                    use_type_invariant(self);
                }
                let id = match vocab_lookup(&self.vocab, piece) {
                    Some(id) => id,
                    None => self.unk_id,
                };
                ids.push(id);
            } else {
                let mut piece_ids = self.encode_piece(piece);
                ids.append(&mut piece_ids);
            }
            i = i + 1;
        }
        assert(ps.take(n as int) =~= ps);
        ids
    }

    fn decode(&self, tokens: &[u32]) -> (res: String)
        ensures
            res@ == spec_decode(self@, tokens@),
    {
        let decoder = byte_decoder();
        let mut bytes: Vec<u8> = Vec::new();
        let n = tokens.len();
        let mut i: usize = 0;
        assert(tokens@.take(0) =~= Seq::<u32>::empty());
        while i < n
            invariant
                n == tokens@.len(),
                i <= n,
                forall|b: int| 0 <= b < 256 ==> #[trigger] decoder@.contains_key(spec_byte_code(b)) && decoder@[spec_byte_code(b)] == b,
                forall|k: u32| #[trigger] decoder@.contains_key(k) ==> exists|b: int| 0 <= b < 256 && spec_byte_code(b) == k,
                bytes@ == ids_bytes(self@, tokens@.take(i as int)),
            decreases n - i,
        {
            let ghost before = bytes@;
            assert(tokens@.take(i + 1).drop_last() =~= tokens@.take(i as int));
            match self.id_to_token.get(&tokens[i]) {
                Some(token) => {
                    assert(self@.id_to_token.get(tokens@[i as int]) == Some(token@));
                    Self::push_token_bytes(token, &decoder, &mut bytes);
                },
                None => {
                    assert(self@.id_to_token.get(tokens@[i as int]) is None);
                    assert(bytes@ =~= before + Seq::<u8>::empty());
                },
            }
            i = i + 1;
        }
        assert(tokens@.take(n as int) =~= tokens@);
        string_from_utf8_lossy(bytes.as_slice())
    }
}

} // verus!
