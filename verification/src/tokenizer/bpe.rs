//! The byte-pair-encoding merge procedure, stated over sequences of pieces.
use vstd::prelude::*;

verus! {

/// A merge rule list: each entry is a pair of pieces and its rank (the line
/// it came from). A lower rank means a higher priority.
pub type MergeList = Seq<(Seq<char>, Seq<char>, usize)>;

/// The rank of merging `a` with `b`: the rank of the last rule for that pair
/// among the first `n` rules (a later rule for the same pair replaces an
/// earlier one).
pub open spec fn merge_rank_upto(m: MergeList, a: Seq<char>, b: Seq<char>, n: int) -> Option<usize>
    decreases n,
{
    if n <= 0 || n > m.len() {
        None
    } else if m[n - 1].0 == a && m[n - 1].1 == b {
        Some(m[n - 1].2)
    } else {
        merge_rank_upto(m, a, b, n - 1)
    }
}

/// The rank of merging `a` with `b`, if some rule merges them.
pub open spec fn merge_rank(m: MergeList, a: Seq<char>, b: Seq<char>) -> Option<usize> {
    merge_rank_upto(m, a, b, m.len() as int)
}

/// The rank of merging the pieces at `i` and `i + 1`.
pub open spec fn pair_rank(m: MergeList, p: Seq<Seq<char>>, i: int) -> Option<usize> {
    merge_rank(m, p[i], p[i + 1])
}

/// `i` is the adjacent pair to merge next: it has a rank, no pair has a lower
/// rank, and no earlier pair has the same rank.
pub open spec fn is_best_pair(m: MergeList, p: Seq<Seq<char>>, i: int) -> bool {
    &&& 0 <= i < p.len() - 1
    &&& pair_rank(m, p, i) is Some
    &&& forall|j: int|
        0 <= j < p.len() - 1 && (#[trigger] pair_rank(m, p, j)) is Some ==> pair_rank(m, p, i)->0
            <= pair_rank(m, p, j)->0
    &&& forall|j: int|
        0 <= j < i && (#[trigger] pair_rank(m, p, j)) is Some ==> pair_rank(m, p, i)->0 < pair_rank(
            m,
            p,
            j,
        )->0
}

/// The pieces with those at `i` and `i + 1` joined into one.
pub open spec fn merge_at(p: Seq<Seq<char>>, i: int) -> Seq<Seq<char>> {
    p.take(i) + seq![p[i] + p[i + 1]] + p.skip(i + 2)
}

/// Byte-pair encoding: repeatedly join the best adjacent pair until no
/// adjacent pair has a merge rule.
pub open spec fn spec_bpe(m: MergeList, p: Seq<Seq<char>>) -> Seq<Seq<char>>
    decreases p.len(),
{
    if p.len() >= 2 && exists|i: int| is_best_pair(m, p, i) {
        let i = choose|i: int| is_best_pair(m, p, i);
        spec_bpe(m, merge_at(p, i))
    } else {
        p
    }
}

/// The concatenation of a sequence of pieces.
pub open spec fn flatten(p: Seq<Seq<char>>) -> Seq<char>
    decreases p.len(),
{
    if p.len() == 0 {
        Seq::empty()
    } else {
        flatten(p.drop_last()) + p.last()
    }
}

/// There is at most one best pair.
pub proof fn lemma_best_pair_unique(m: MergeList, p: Seq<Seq<char>>, i: int, j: int)
    requires
        is_best_pair(m, p, i),
        is_best_pair(m, p, j),
    ensures
        i == j,
{
    if i < j {
        assert(pair_rank(m, p, i) is Some);
    } else if j < i {
        assert(pair_rank(m, p, j) is Some);
    }
}

/// A single piece spells itself.
pub proof fn lemma_flatten_single(x: Seq<char>)
    ensures
        flatten(seq![x]) == x,
{
    assert(seq![x].drop_last() =~= Seq::<Seq<char>>::empty());
    assert(flatten(Seq::<Seq<char>>::empty()) == Seq::<char>::empty());
    assert(flatten(seq![x]) == flatten(seq![x].drop_last()) + seq![x].last());
    assert(seq![x].last() == x);
    assert(Seq::<char>::empty() + x =~= x);
}

/// Flattening distributes over concatenation.
pub proof fn lemma_flatten_concat(a: Seq<Seq<char>>, b: Seq<Seq<char>>)
    ensures
        flatten(a + b) == flatten(a) + flatten(b),
    decreases b.len(),
{
    if b.len() == 0 {
        assert(a + b =~= a);
        assert(flatten(a) + flatten(b) =~= flatten(a));
    } else {
        lemma_flatten_concat(a, b.drop_last());
        assert((a + b).drop_last() =~= a + b.drop_last());
        assert(flatten(a) + (flatten(b.drop_last()) + b.last()) =~= flatten(a) + flatten(
            b.drop_last(),
        ) + b.last());
    }
}

/// Joining two adjacent pieces does not change the text they spell.
pub proof fn lemma_merge_at_flatten(p: Seq<Seq<char>>, i: int)
    requires
        0 <= i < p.len() - 1,
    ensures
        flatten(merge_at(p, i)) == flatten(p),
        merge_at(p, i).len() == p.len() - 1,
{
    let pre = p.take(i);
    let post = p.skip(i + 2);
    assert(p =~= pre + seq![p[i], p[i + 1]] + post);
    lemma_flatten_concat(pre + seq![p[i], p[i + 1]], post);
    lemma_flatten_concat(pre, seq![p[i], p[i + 1]]);
    lemma_flatten_concat(pre + seq![p[i] + p[i + 1]], post);
    lemma_flatten_concat(pre, seq![p[i] + p[i + 1]]);
    assert(seq![p[i], p[i + 1]].drop_last() =~= seq![p[i]]);
    lemma_flatten_single(p[i]);
    lemma_flatten_single(p[i] + p[i + 1]);
}

/// Byte-pair encoding never changes the text: the merged pieces spell
/// exactly what the input pieces spelled.
pub proof fn lemma_bpe_preserves_text(m: MergeList, p: Seq<Seq<char>>)
    ensures
        flatten(spec_bpe(m, p)) == flatten(p),
    decreases p.len(),
{
    if p.len() >= 2 && exists|i: int| is_best_pair(m, p, i) {
        let i = choose|i: int| is_best_pair(m, p, i);
        lemma_merge_at_flatten(p, i);
        lemma_bpe_preserves_text(m, merge_at(p, i));
    }
}

/// Some adjacent pair with a rule has the least rank among all of them.
proof fn lemma_best_pair_exists(m: MergeList, p: Seq<Seq<char>>, k: int)
    requires
        0 <= k < p.len() - 1,
        pair_rank(m, p, k) is Some,
    ensures
        exists|i: int| is_best_pair(m, p, i),
    decreases pair_rank(m, p, k)->0,
{
    // The first pair with the least rank below or equal to that of `k`.
    let r = pair_rank(m, p, k)->0;
    if exists|j: int| 0 <= j < p.len() - 1 && (#[trigger] pair_rank(m, p, j)) is Some && pair_rank(m, p, j)->0 < r {
        let j = choose|j: int| 0 <= j < p.len() - 1 && (#[trigger] pair_rank(m, p, j)) is Some && pair_rank(m, p, j)->0 < r;
        lemma_best_pair_exists(m, p, j);
    } else {
        lemma_first_with_rank(m, p, r, k);
    }
}

/// Among pairs of the least rank `r`, the first one is the best pair.
proof fn lemma_first_with_rank(m: MergeList, p: Seq<Seq<char>>, r: usize, k: int)
    requires
        0 <= k < p.len() - 1,
        pair_rank(m, p, k) == Some(r),
        forall|j: int| 0 <= j < p.len() - 1 && (#[trigger] pair_rank(m, p, j)) is Some ==> r <= pair_rank(m, p, j)->0,
    ensures
        exists|i: int| is_best_pair(m, p, i),
    decreases k,
{
    if exists|j: int| 0 <= j < k && (#[trigger] pair_rank(m, p, j)) == Some(r) {
        let j = choose|j: int| 0 <= j < k && (#[trigger] pair_rank(m, p, j)) == Some(r);
        lemma_first_with_rank(m, p, r, j);
    } else {
        assert(is_best_pair(m, p, k));
    }
}

/// Byte-pair encoding runs until no adjacent pair of the result has a merge rule.
pub proof fn lemma_bpe_is_fixpoint(m: MergeList, p: Seq<Seq<char>>)
    ensures
        forall|i: int| 0 <= i < spec_bpe(m, p).len() - 1 ==> (#[trigger] pair_rank(m, spec_bpe(m, p), i)) is None,
    decreases p.len(),
{
    if p.len() >= 2 && exists|i: int| is_best_pair(m, p, i) {
        let i = choose|i: int| is_best_pair(m, p, i);
        lemma_merge_at_flatten(p, i);
        lemma_bpe_is_fixpoint(m, merge_at(p, i));
    } else {
        assert forall|i: int| 0 <= i < spec_bpe(m, p).len() - 1 implies (#[trigger] pair_rank(m, spec_bpe(m, p), i)) is None by {
            if pair_rank(m, p, i) is Some {
                lemma_best_pair_exists(m, p, i);
            }
        }
    }
}

/// `m[k]` is a rule joining `a` followed by `b`.
pub open spec fn rule_joins(m: MergeList, k: int, a: Seq<char>, b: Seq<char>) -> bool {
    0 <= k < m.len() && m[k].0 == a && m[k].1 == b
}

/// The rank of joining `a` followed by `b` among the first `n` rules is that
/// of the last of them whose first part is `a` and whose second part is `b`;
/// there is none exactly when no such rule is among them.
proof fn lemma_merge_rank_upto_rules(m: MergeList, a: Seq<char>, b: Seq<char>, n: int)
    requires
        0 <= n <= m.len(),
    ensures
        merge_rank_upto(m, a, b, n) is None <==> forall|k: int| 0 <= k < n ==> !#[trigger] rule_joins(m, k, a, b),
        merge_rank_upto(m, a, b, n) matches Some(r) ==> exists|k: int|
            0 <= k < n && #[trigger] rule_joins(m, k, a, b) && m[k].2 == r && forall|k2: int|
                k < k2 < n ==> !#[trigger] rule_joins(m, k2, a, b),
    decreases n,
{
    if n > 0 {
        lemma_merge_rank_upto_rules(m, a, b, n - 1);
        if rule_joins(m, n - 1, a, b) {
            assert(rule_joins(m, n - 1, a, b) && m[n - 1].2 == merge_rank_upto(m, a, b, n)->0);
        }
    }
}

/// The rank of joining `a` followed by `b` is that of the last rule whose
/// first part is `a` and whose second part is `b`, and there is no rank
/// exactly when no rule joins them in that order.
pub proof fn lemma_merge_rank_rules(m: MergeList, a: Seq<char>, b: Seq<char>)
    ensures
        merge_rank(m, a, b) is None <==> forall|k: int| 0 <= k < m.len() ==> !#[trigger] rule_joins(m, k, a, b),
        merge_rank(m, a, b) matches Some(r) ==> exists|k: int|
            0 <= k < m.len() && #[trigger] rule_joins(m, k, a, b) && m[k].2 == r && forall|k2: int|
                k < k2 < m.len() ==> !#[trigger] rule_joins(m, k2, a, b),
{
    lemma_merge_rank_upto_rules(m, a, b, m.len() as int);
}

/// After byte-pair encoding, no rule joins any piece with the piece that
/// follows it.
pub proof fn lemma_bpe_leaves_no_rule(m: MergeList, p: Seq<Seq<char>>)
    ensures
        forall|i: int, k: int|
            0 <= i < spec_bpe(m, p).len() - 1 ==> !#[trigger] rule_joins(
                m,
                k,
                spec_bpe(m, p)[i],
                spec_bpe(m, p)[i + 1],
            ),
{
    lemma_bpe_is_fixpoint(m, p);
    let q = spec_bpe(m, p);
    assert forall|i: int, k: int| 0 <= i < q.len() - 1 implies !#[trigger] rule_joins(m, k, q[i], q[i + 1]) by {
        assert(pair_rank(m, q, i) is None);
        lemma_merge_rank_rules(m, q[i], q[i + 1]);
    }
}

/// Pieces that no rule joins are left as they are.
proof fn lemma_bpe_no_pair(m: MergeList, p: Seq<Seq<char>>)
    requires
        forall|j: int| 0 <= j < p.len() - 1 ==> (#[trigger] pair_rank(m, p, j)) is None,
    ensures
        spec_bpe(m, p) == p,
{
    if exists|i: int| is_best_pair(m, p, i) {
        let i = choose|i: int| is_best_pair(m, p, i);
        assert(pair_rank(m, p, i) is Some);
    }
}

/// When pair `i` is the best pair, encoding goes on from the pieces with that
/// pair joined.
proof fn lemma_bpe_step(m: MergeList, p: Seq<Seq<char>>, i: int)
    requires
        is_best_pair(m, p, i),
    ensures
        spec_bpe(m, p) == spec_bpe(m, merge_at(p, i)),
{
    let j = choose|j: int| is_best_pair(m, p, j);
    lemma_best_pair_unique(m, p, i, j);
}

/// With the single rule joining `a` followed by `b` (two different pieces),
/// `[a, b]` becomes `[a + b]` while `[b, a]` stays as it is.
pub proof fn lemma_bpe_single_rule(a: Seq<char>, b: Seq<char>, r: usize)
    requires
        a != b,
    ensures
        spec_bpe(seq![(a, b, r)], seq![a, b]) == seq![a + b],
        spec_bpe(seq![(a, b, r)], seq![b, a]) == seq![b, a],
{
    let m: MergeList = seq![(a, b, r)];
    reveal_with_fuel(merge_rank_upto, 2);
    let p = seq![a, b];
    assert(pair_rank(m, p, 0) == Some(r));
    assert(is_best_pair(m, p, 0));
    lemma_bpe_step(m, p, 0);
    assert(merge_at(p, 0) =~= seq![a + b]);
    let q = seq![b, a];
    assert(pair_rank(m, q, 0) is None);
    lemma_bpe_no_pair(m, q);
}

/// Rules apply lowest rank first: with rules joining `a b` and `b c` over the
/// non-empty pieces `[a, b, c]`, the pair whose rule has the lower rank is
/// joined and the other is then left alone.
pub proof fn lemma_bpe_lowest_rank_first(a: Seq<char>, b: Seq<char>, c: Seq<char>)
    requires
        a.len() > 0,
        b.len() > 0,
        c.len() > 0,
        a != b || b != c,
    ensures
        spec_bpe(seq![(a, b, 0usize), (b, c, 1usize)], seq![a, b, c]) == seq![a + b, c],
        spec_bpe(seq![(a, b, 1usize), (b, c, 0usize)], seq![a, b, c]) == seq![a, b + c],
{
    reveal_with_fuel(merge_rank_upto, 3);
    let p = seq![a, b, c];
    assert((a + b).len() == a.len() + b.len());
    assert((b + c).len() == b.len() + c.len());
    assert(a + b != a && a + b != b);
    assert(b + c != b && b + c != c);

    let m1: MergeList = seq![(a, b, 0usize), (b, c, 1usize)];
    assert(pair_rank(m1, p, 0) == Some(0usize));
    assert(pair_rank(m1, p, 1) == Some(1usize));
    assert(is_best_pair(m1, p, 0));
    lemma_bpe_step(m1, p, 0);
    let p1 = merge_at(p, 0);
    assert(p1 =~= seq![a + b, c]);
    assert(pair_rank(m1, p1, 0) is None);
    lemma_bpe_no_pair(m1, p1);

    let m2: MergeList = seq![(a, b, 1usize), (b, c, 0usize)];
    assert(pair_rank(m2, p, 0) == Some(1usize));
    assert(pair_rank(m2, p, 1) == Some(0usize));
    assert(is_best_pair(m2, p, 1));
    lemma_bpe_step(m2, p, 1);
    let p2 = merge_at(p, 1);
    assert(p2 =~= seq![a, b + c]);
    assert(pair_rank(m2, p2, 0) is None);
    lemma_bpe_no_pair(m2, p2);
}

/// Among pairs of equal rank the leftmost is joined first: with the rule
/// joining `a a`, the pieces `[a, a, a]` become `[a + a, a]`.
pub proof fn lemma_bpe_leftmost_first(a: Seq<char>, r: usize)
    requires
        a.len() > 0,
    ensures
        spec_bpe(seq![(a, a, r)], seq![a, a, a]) == seq![a + a, a],
{
    reveal_with_fuel(merge_rank_upto, 2);
    let m: MergeList = seq![(a, a, r)];
    let p = seq![a, a, a];
    assert((a + a).len() == 2 * a.len());
    assert(a + a != a);
    assert(pair_rank(m, p, 0) == Some(r));
    assert(pair_rank(m, p, 1) == Some(r));
    assert(is_best_pair(m, p, 0));
    lemma_bpe_step(m, p, 0);
    let p1 = merge_at(p, 0);
    assert(p1 =~= seq![a + a, a]);
    assert(pair_rank(m, p1, 0) is None);
    lemma_bpe_no_pair(m, p1);
}

} // verus!
