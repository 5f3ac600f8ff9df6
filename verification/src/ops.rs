//! Index-only compute kernels: those that move values without doing
//! arithmetic on them, so they work for any element type.
use vstd::prelude::*;

verus! {

/// Element `j` of row `r` of a row-major matrix with rows of length `width`.
pub open spec fn row_elem<T>(m: Seq<T>, width: int, r: int, j: int) -> T {
    m[r * width + j]
}

proof fn lemma_row_index(width: int, r: int, j: int, rows: int)
    requires
        0 <= r < rows,
        0 <= j < width,
    ensures
        0 <= r * width + j < rows * width,
        r * width + j < (r + 1) * width,
        r * width <= r * width + j,
{
    assert(r * width + j < (r + 1) * width) by (nonlinear_arith)
        requires
            0 <= j < width,
    ;
    assert((r + 1) * width <= rows * width) by (nonlinear_arith)
        requires
            r + 1 <= rows,
            0 <= width,
    ;
    assert(0 <= r * width) by (nonlinear_arith)
        requires
            0 <= r,
            0 <= width,
    ;
}

proof fn lemma_rows_disjoint(width: int, r1: int, j1: int, r2: int, j2: int)
    requires
        0 <= r1 < r2,
        0 <= j1 < width,
        0 <= j2 < width,
    ensures
        r1 * width + j1 < r2 * width + j2,
{
    assert(r1 * width + width <= r2 * width) by (nonlinear_arith)
        requires
            r1 < r2,
            0 <= width,
    ;
}

/// Gather token embeddings by integer token ids.
///
/// `embeddings` is `[vocab_size, hidden_size]` in row-major order. For each
/// token id in `input_ids`, the corresponding row is copied into `out`, which
/// has shape `[input_ids.len(), hidden_size]`.
pub fn embedding_lookup<T: Copy>(embeddings: &[T], input_ids: &[u32], hidden_size: usize, out: &mut [T])
    requires
        old(out)@.len() == input_ids@.len() * hidden_size,
        forall|p: int|
            0 <= p < input_ids@.len() ==> (#[trigger] input_ids@[p]) as int * hidden_size + hidden_size
                <= embeddings@.len(),
    ensures
        final(out)@.len() == old(out)@.len(),
        forall|p: int, j: int|
            0 <= p < input_ids@.len() && 0 <= j < hidden_size ==> #[trigger] row_elem(
                final(out)@,
                hidden_size as int,
                p,
                j,
            ) == row_elem(embeddings@, hidden_size as int, input_ids@[p] as int, j),
{
    let n = input_ids.len();
    let h = hidden_size;
    let el = embeddings.len();
    let ol = out.len();
    let ghost total = old(out)@.len();
    if h == 0 {
        return;
    }
    let mut pos: usize = 0;
    while pos < n
        invariant
            n == input_ids@.len(),
            h == hidden_size,
            h > 0,
            el == embeddings@.len(),
            ol == total,
            out@.len() == total,
            total == n * h,
            pos <= n,
            forall|p: int|
                0 <= p < n ==> (#[trigger] input_ids@[p]) as int * h + h <= embeddings@.len(),
            forall|p: int, j: int|
                0 <= p < pos && 0 <= j < h ==> #[trigger] row_elem(out@, h as int, p, j) == row_elem(
                    embeddings@,
                    h as int,
                    input_ids@[p] as int,
                    j,
                ),
        decreases n - pos,
    {
        let id = input_ids[pos];
        proof {
            lemma_row_index(h as int, pos as int, h - 1, n as int);
            assert(input_ids@[pos as int] as int * h + h <= embeddings@.len());
        }
        let src = id as usize * h;
        let dst = pos * h;
        let mut j: usize = 0;
        while j < h
            invariant
                n == input_ids@.len(),
                h == hidden_size,
                el == embeddings@.len(),
                ol == total,
                out@.len() == total,
                total == n * h,
                pos < n,
                id == input_ids@[pos as int],
                src == id as int * h,
                dst == pos * h,
                src + h <= embeddings@.len(),
                dst + h <= total,
                j <= h,
                forall|p: int|
                    0 <= p < n ==> (#[trigger] input_ids@[p]) as int * h + h <= embeddings@.len(),
                forall|p: int, k: int|
                    0 <= p < pos && 0 <= k < h ==> #[trigger] row_elem(out@, h as int, p, k) == row_elem(
                        embeddings@,
                        h as int,
                        input_ids@[p] as int,
                        k,
                    ),
                forall|k: int| 0 <= k < j ==> #[trigger] row_elem(out@, h as int, pos as int, k) == row_elem(
                    embeddings@,
                    h as int,
                    id as int,
                    k,
                ),
            decreases h - j,
        {
            let ghost before = out@;
            out[dst + j] = embeddings[src + j];
            proof {
                assert forall|p: int, k: int|
                    0 <= p < pos && 0 <= k < h implies #[trigger] row_elem(out@, h as int, p, k) == row_elem(
                        embeddings@,
                        h as int,
                        input_ids@[p] as int,
                        k,
                    ) by {
                    lemma_rows_disjoint(h as int, p, k, pos as int, j as int);
                    assert(row_elem(out@, h as int, p, k) == row_elem(before, h as int, p, k));
                }
                assert forall|k: int| 0 <= k < j + 1 implies #[trigger] row_elem(out@, h as int, pos as int, k)
                    == row_elem(embeddings@, h as int, id as int, k) by {
                    if k < j {
                        assert(row_elem(out@, h as int, pos as int, k) == row_elem(before, h as int, pos as int, k));
                    }
                }
            }
            j = j + 1;
        }
        pos = pos + 1;
    }
}

} // verus!
