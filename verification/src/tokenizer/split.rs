//! Splitting text around special tokens.
use super::bpe::{flatten, lemma_flatten_concat, lemma_flatten_single};
use vstd::prelude::*;

verus! {

/// `needle` occurs in `hay` starting at character `i`.
pub open spec fn occurs_at(hay: Seq<char>, needle: Seq<char>, i: int) -> bool {
    0 <= i && i + needle.len() <= hay.len() && hay.subrange(i, i + needle.len()) == needle
}

/// `i` is where `needle` first occurs in `hay`.
pub open spec fn is_first_occurrence(hay: Seq<char>, needle: Seq<char>, i: int) -> bool {
    occurs_at(hay, needle, i) && forall|j: int| 0 <= j < i ==> !#[trigger] occurs_at(hay, needle, j)
}

/// Where `needle` first occurs in `hay`, if it occurs.
pub open spec fn first_occurrence(hay: Seq<char>, needle: Seq<char>) -> Option<int> {
    if exists|i: int| is_first_occurrence(hay, needle, i) {
        Some(choose|i: int| is_first_occurrence(hay, needle, i))
    } else {
        None
    }
}

/// Special token `k` is the one to split at next: it occurs at `pos`, no
/// special token occurs earlier, and no token listed before `k` occurs at the
/// same place.
pub open spec fn is_earliest(specials: Seq<Seq<char>>, hay: Seq<char>, k: int, pos: int) -> bool {
    &&& 0 <= k < specials.len()
    &&& first_occurrence(hay, specials[k]) == Some(pos)
    &&& forall|k2: int|
        0 <= k2 < specials.len() && (#[trigger] first_occurrence(hay, specials[k2])) is Some ==> pos
            <= first_occurrence(hay, specials[k2])->0
    &&& forall|k2: int|
        0 <= k2 < k && (#[trigger] first_occurrence(hay, specials[k2])) is Some ==> pos
            < first_occurrence(hay, specials[k2])->0
}

/// The special token to split at next and its position, if any occurs.
pub open spec fn earliest_special(specials: Seq<Seq<char>>, hay: Seq<char>) -> Option<(int, int)> {
    if exists|k: int, pos: int| is_earliest(specials, hay, k, pos) {
        Some(choose|k: int, pos: int| is_earliest(specials, hay, k, pos))
    } else {
        None
    }
}

/// No special token is empty.
pub open spec fn no_empty_token(specials: Seq<Seq<char>>) -> bool {
    forall|k: int| 0 <= k < specials.len() ==> (#[trigger] specials[k]).len() > 0
}

/// Text split around special tokens: the text before the earliest special
/// token (when not empty), the token itself, then the split of the rest; text
/// without special tokens stays whole. With no special tokens at all the
/// text is one piece, even when empty.
pub open spec fn spec_split(specials: Seq<Seq<char>>, text: Seq<char>) -> Seq<Seq<char>>
    decreases text.len(),
{
    if specials.len() == 0 {
        seq![text]
    } else if text.len() == 0 {
        Seq::empty()
    } else {
        match earliest_special(specials, text) {
            None => seq![text],
            Some((k, pos)) => {
                let tok = specials[k];
                if 0 <= pos && tok.len() > 0 && pos + tok.len() <= text.len() {
                    let head = if pos == 0 {
                        seq![tok]
                    } else {
                        seq![text.take(pos), tok]
                    };
                    head + spec_split(specials, text.skip(pos + tok.len()))
                } else {
                    Seq::empty()
                }
            },
        }
    }
}

/// The position of a first occurrence is unique.
pub proof fn lemma_first_occurrence_unique(hay: Seq<char>, needle: Seq<char>, i: int, j: int)
    requires
        is_first_occurrence(hay, needle, i),
        is_first_occurrence(hay, needle, j),
    ensures
        i == j,
{
    if i < j {
        assert(!occurs_at(hay, needle, i));
    } else if j < i {
        assert(!occurs_at(hay, needle, j));
    }
}

/// The earliest special token is unique.
pub proof fn lemma_earliest_unique(specials: Seq<Seq<char>>, hay: Seq<char>, k1: int, p1: int, k2: int, p2: int)
    requires
        is_earliest(specials, hay, k1, p1),
        is_earliest(specials, hay, k2, p2),
    ensures
        k1 == k2 && p1 == p2,
{
    assert(first_occurrence(hay, specials[k1]) is Some);
    assert(first_occurrence(hay, specials[k2]) is Some);
}

/// Splitting around special tokens never changes the text: the pieces spell
/// it exactly.
pub proof fn lemma_split_preserves_text(specials: Seq<Seq<char>>, text: Seq<char>)
    requires
        no_empty_token(specials),
    ensures
        flatten(spec_split(specials, text)) == text,
    decreases text.len(),
{
    if specials.len() == 0 {
        lemma_flatten_single(text);
    } else if text.len() == 0 {
    } else {
        match earliest_special(specials, text) {
            None => {
                lemma_flatten_single(text);
            },
            Some((k, pos)) => {
                assert(is_earliest(specials, text, k, pos));
                let tok = specials[k];
                assert(occurs_at(text, tok, pos));
                let rest = text.skip(pos + tok.len());
                lemma_split_preserves_text(specials, rest);
                let head = if pos == 0 {
                    seq![tok]
                } else {
                    seq![text.take(pos), tok]
                };
                lemma_flatten_concat(head, spec_split(specials, rest));
                if pos == 0 {
                    lemma_flatten_single(tok);
                    assert(tok + rest =~= text);
                } else {
                    assert(seq![text.take(pos), tok].drop_last() =~= seq![text.take(pos)]);
                    lemma_flatten_single(text.take(pos));
                    assert(text.take(pos) + tok + rest =~= text);
                }
            },
        }
    }
}


/// Some special token occurs somewhere in `piece`.
pub open spec fn contains_special(specials: Seq<Seq<char>>, piece: Seq<char>) -> bool {
    exists|k: int, i: int| 0 <= k < specials.len() && #[trigger] occurs_at(piece, specials[k], i)
}

/// An occurrence of `needle` at `i` means a first occurrence exists, no later
/// than `i`.
proof fn lemma_first_occurrence_exists(hay: Seq<char>, needle: Seq<char>, i: int)
    requires
        occurs_at(hay, needle, i),
    ensures
        first_occurrence(hay, needle) matches Some(p) && p <= i && is_first_occurrence(hay, needle, p),
    decreases i,
{
    if forall|j: int| 0 <= j < i ==> !#[trigger] occurs_at(hay, needle, j) {
        assert(is_first_occurrence(hay, needle, i));
    } else {
        let j = choose|j: int| 0 <= j < i && #[trigger] occurs_at(hay, needle, j);
        lemma_first_occurrence_exists(hay, needle, j);
    }
    let p = choose|p: int| is_first_occurrence(hay, needle, p);
    if p > i {
        assert(!occurs_at(hay, needle, i));
    }
}

/// `k` and `pos` are the earliest special token among the first `m` ones.
spec fn earliest_upto(specials: Seq<Seq<char>>, hay: Seq<char>, m: int, k: int, pos: int) -> bool {
    &&& 0 <= k < m
    &&& first_occurrence(hay, specials[k]) == Some(pos)
    &&& forall|k2: int|
        0 <= k2 < m && (#[trigger] first_occurrence(hay, specials[k2])) is Some ==> pos
            <= first_occurrence(hay, specials[k2])->0
    &&& forall|k2: int|
        0 <= k2 < k && (#[trigger] first_occurrence(hay, specials[k2])) is Some ==> pos
            < first_occurrence(hay, specials[k2])->0
}

/// The earliest of the first `m` special tokens, found one token at a time.
proof fn lemma_find_earliest(specials: Seq<Seq<char>>, hay: Seq<char>, m: int) -> (res: Option<(int, int)>)
    requires
        0 <= m <= specials.len(),
    ensures
        res matches Some((k, pos)) ==> earliest_upto(specials, hay, m, k, pos),
        res is None ==> forall|k2: int|
            0 <= k2 < m ==> (#[trigger] first_occurrence(hay, specials[k2])) is None,
    decreases m,
{
    if m == 0 {
        None
    } else {
        let r = lemma_find_earliest(specials, hay, m - 1);
        match (r, first_occurrence(hay, specials[m - 1])) {
            (None, None) => None,
            (None, Some(q)) => Some((m - 1, q)),
            (Some((k, p)), None) => Some((k, p)),
            (Some((k, p)), Some(q)) => if q < p {
                Some((m - 1, q))
            } else {
                Some((k, p))
            },
        }
    }
}

/// When some special token occurs in `hay`, there is an earliest one, and it
/// starts no later than that occurrence.
proof fn lemma_earliest_exists(specials: Seq<Seq<char>>, hay: Seq<char>, k: int, i: int)
    requires
        0 <= k < specials.len(),
        occurs_at(hay, specials[k], i),
    ensures
        earliest_special(specials, hay) matches Some((k1, pos)) && is_earliest(specials, hay, k1, pos)
            && pos <= i,
{
    lemma_first_occurrence_exists(hay, specials[k], i);
    let r = lemma_find_earliest(specials, hay, specials.len() as int);
    assert(first_occurrence(hay, specials[k]) is Some);
    let (k1, p1) = r->0;
    assert(is_earliest(specials, hay, k1, p1));
    let (k2, p2) = choose|k2: int, p2: int| is_earliest(specials, hay, k2, p2);
    lemma_earliest_unique(specials, hay, k1, p1, k2, p2);
}

/// The text before the earliest special token holds no special token.
proof fn lemma_prefix_free(specials: Seq<Seq<char>>, text: Seq<char>, k: int, pos: int)
    requires
        no_empty_token(specials),
        is_earliest(specials, text, k, pos),
        0 <= pos <= text.len(),
    ensures
        !contains_special(specials, text.take(pos)),
{
    if contains_special(specials, text.take(pos)) {
        let (k2, i) = choose|k2: int, i: int|
            0 <= k2 < specials.len() && #[trigger] occurs_at(text.take(pos), specials[k2], i);
        let tok = specials[k2];
        assert(tok.len() > 0);
        assert(text.subrange(i, i + tok.len()) =~= text.take(pos).subrange(i, i + tok.len()));
        assert(occurs_at(text, tok, i));
        lemma_first_occurrence_exists(text, tok, i);
        assert(first_occurrence(text, specials[k2]) is Some);
    }
}

/// Splitting isolates the special tokens: every piece is either a special
/// token or text in which no special token occurs.
pub proof fn lemma_split_isolates_specials(specials: Seq<Seq<char>>, text: Seq<char>)
    requires
        no_empty_token(specials),
    ensures
        forall|j: int|
            0 <= j < spec_split(specials, text).len() ==> specials.contains(
                #[trigger] spec_split(specials, text)[j],
            ) || !contains_special(specials, spec_split(specials, text)[j]),
    decreases text.len(),
{
    let pieces = spec_split(specials, text);
    if specials.len() == 0 {
        assert(!contains_special(specials, text));
    } else if text.len() == 0 {
    } else {
        match earliest_special(specials, text) {
            None => {
                if contains_special(specials, text) {
                    let (k, i) = choose|k: int, i: int|
                        0 <= k < specials.len() && #[trigger] occurs_at(text, specials[k], i);
                    lemma_earliest_exists(specials, text, k, i);
                }
            },
            Some((k, pos)) => {
                assert(is_earliest(specials, text, k, pos));
                let tok = specials[k];
                if 0 <= pos && tok.len() > 0 && pos + tok.len() <= text.len() {
                    let rest = text.skip(pos + tok.len());
                    lemma_split_isolates_specials(specials, rest);
                    let tail = spec_split(specials, rest);
                    let head = if pos == 0 {
                        seq![tok]
                    } else {
                        seq![text.take(pos), tok]
                    };
                    assert(pieces == head + tail);
                    assert(specials.contains(tok)) by {
                        assert(specials[k] == tok);
                    }
                    if pos > 0 {
                        lemma_prefix_free(specials, text, k, pos);
                    }
                    assert forall|j: int| 0 <= j < pieces.len() implies specials.contains(
                        #[trigger] pieces[j],
                    ) || !contains_special(specials, pieces[j]) by {
                        if j >= head.len() {
                            assert(pieces[j] == tail[j - head.len()]);
                        }
                    }
                }
            },
        }
    }
}

} // verus!
