use vstd::prelude::*;

verus! {

/// Index in `prev` where the alignment at `offset` starts: the last `offset + 1`
/// tokens of `prev` are laid against the start of `curr`.
pub open spec fn align_start(prev: Seq<usize>, offset: int) -> int {
    prev.len() - 1 - offset
}

/// Number of positions compared at `offset`.
pub open spec fn align_width(prev: Seq<usize>, curr: Seq<usize>, offset: int) -> int {
    if offset + 1 < curr.len() {
        offset + 1
    } else {
        curr.len() as int
    }
}

/// Whether position `j` agrees at the alignment starting at `start`.
pub open spec fn agrees(prev: Seq<usize>, curr: Seq<usize>, start: int, j: int) -> bool {
    prev[start + j] == curr[j]
}

/// Number of agreeing positions among the first `w` of the alignment at `start`.
pub open spec fn count_agree(prev: Seq<usize>, curr: Seq<usize>, start: int, w: int) -> int
    decreases w,
{
    if w <= 0 {
        0
    } else {
        count_agree(prev, curr, start, w - 1) + if agrees(prev, curr, start, w - 1) {
            1int
        } else {
            0int
        }
    }
}

/// First agreeing position among the first `w`, or `w` when there is none.
pub open spec fn first_agree(prev: Seq<usize>, curr: Seq<usize>, start: int, w: int) -> int
    decreases w,
{
    if w <= 0 {
        0
    } else if first_agree(prev, curr, start, w - 1) < w - 1 {
        first_agree(prev, curr, start, w - 1)
    } else if agrees(prev, curr, start, w - 1) {
        w - 1
    } else {
        w
    }
}

/// Agreement count of the alignment at `offset`.
pub open spec fn score_at(prev: Seq<usize>, curr: Seq<usize>, offset: int) -> int {
    count_agree(prev, curr, align_start(prev, offset), align_width(prev, curr, offset))
}

/// Highest agreement count over the offsets `0..n` (0 when `n == 0`).
pub open spec fn best_score(prev: Seq<usize>, curr: Seq<usize>, n: int) -> int
    decreases n,
{
    if n <= 0 {
        0
    } else if score_at(prev, curr, n - 1) > best_score(prev, curr, n - 1) {
        score_at(prev, curr, n - 1)
    } else {
        best_score(prev, curr, n - 1)
    }
}

/// First offset in `0..n` that reaches `best_score(prev, curr, n)`.
pub open spec fn best_offset(prev: Seq<usize>, curr: Seq<usize>, n: int) -> int
    decreases n,
{
    if n <= 0 {
        0
    } else if score_at(prev, curr, n - 1) > best_score(prev, curr, n - 1) {
        n - 1
    } else {
        best_offset(prev, curr, n - 1)
    }
}

/// Number of offsets that the search tries.
pub open spec fn n_offsets(prev: Seq<usize>, curr: Seq<usize>, max_n_offsets: int) -> int {
    let a = if prev.len() < curr.len() {
        prev.len() as int
    } else {
        curr.len() as int
    };
    if a < max_n_offsets {
        a
    } else {
        max_n_offsets
    }
}

/// Cut pair of the alignment at `offset`: where `prev` is truncated and where
/// `curr` resumes, both at the first agreeing position.
pub open spec fn cut_at(prev: Seq<usize>, curr: Seq<usize>, offset: int) -> (usize, usize) {
    let j = first_agree(prev, curr, align_start(prev, offset), align_width(prev, curr, offset));
    ((align_start(prev, offset) + j) as usize, j as usize)
}

/// The cut pair chosen for `prev` and `curr`: the first offset with the most
/// agreeing positions wins, and it is accepted only with at least
/// `min_n_overlaps` of them.
pub open spec fn chunk_overlap(
    prev: Seq<usize>,
    curr: Seq<usize>,
    max_n_offsets: int,
    min_n_overlaps: int,
) -> Option<(usize, usize)> {
    let n = n_offsets(prev, curr, max_n_offsets);
    let m = best_score(prev, curr, n);
    if m < min_n_overlaps {
        None
    } else if m == 0 {
        Some((0usize, 0usize))
    } else {
        Some(cut_at(prev, curr, best_offset(prev, curr, n)))
    }
}

/// Finds where the tokens of a new window `curr` take over from the accepted
/// tokens `prev`: `Some((p, c))` means that `prev[..p] + curr[c..]` joins them.
pub fn find_chunk_overlap(
    prev_tokens: &[usize],
    curr_tokens: &[usize],
    max_n_offsets: usize,
    min_n_overlaps: usize,
) -> (r: Option<(usize, usize)>)
    ensures
        r == chunk_overlap(prev_tokens@, curr_tokens@, max_n_offsets as int, min_n_overlaps as int),
        r matches Some((p, c)) ==> p <= prev_tokens.len() && c <= curr_tokens.len(),
{
    let ghost prev = prev_tokens@;
    let ghost curr = curr_tokens@;
    let prev_len: usize = prev_tokens.len();
    let mut max_overlap: usize = 0;
    let mut max_indices: (usize, usize) = (0, 0);
    let mut n: usize = if prev_tokens.len() < curr_tokens.len() {
        prev_tokens.len()
    } else {
        curr_tokens.len()
    };
    if max_n_offsets < n {
        n = max_n_offsets;
    }
    let mut offset: usize = 0;
    while offset < n
        invariant
            n == n_offsets(prev, curr, max_n_offsets as int),
            prev_len == prev.len(),
            n <= prev.len(),
            n <= curr.len(),
            offset <= n,
            prev == prev_tokens@,
            curr == curr_tokens@,
            max_overlap == best_score(prev, curr, offset as int),
            max_overlap == 0 ==> max_indices == (0usize, 0usize),
            max_overlap > 0 ==> max_indices == cut_at(prev, curr, best_offset(prev, curr, offset as int)),
            max_overlap > 0 ==> max_indices.0 < prev.len() && max_indices.1 < curr.len(),
        decreases n - offset,
    {
        let start: usize = prev_len - 1 - offset;
        let width: usize = if offset + 1 < curr_tokens.len() {
            offset + 1
        } else {
            curr_tokens.len()
        };
        let mut count: usize = 0;
        let mut first: usize = 0;
        let mut j: usize = 0;
        while j < width
            invariant
                start == align_start(prev, offset as int),
                width == align_width(prev, curr, offset as int),
                start + width <= prev_len,
                prev_len == prev.len(),
                width <= curr.len(),
                j <= width,
                prev == prev_tokens@,
                curr == curr_tokens@,
                count == count_agree(prev, curr, start as int, j as int),
                first == first_agree(prev, curr, start as int, j as int),
                count <= j,
                first <= j,
            decreases width - j,
        {
            if prev_tokens[start + j] == curr_tokens[j] {
                if first == j {
                    first = j;
                }
                count = count + 1;
            } else if first == j {
                first = j + 1;
            }
            j = j + 1;
        }
        proof {
            lemma_first_agree_found(prev, curr, start as int, width as int);
        }
        if count > max_overlap {
            max_overlap = count;
            max_indices = (start + first, first);
        }
        offset = offset + 1;
    }
    if max_overlap >= min_n_overlaps {
        Some(max_indices)
    } else {
        None
    }
}

/// A positive count means that some position agrees, and the first one is it.
pub proof fn lemma_first_agree_found(prev: Seq<usize>, curr: Seq<usize>, start: int, w: int)
    requires
        w >= 0,
    ensures
        0 <= first_agree(prev, curr, start, w) <= w,
        0 <= count_agree(prev, curr, start, w) <= w,
        count_agree(prev, curr, start, w) > 0 ==> first_agree(prev, curr, start, w) < w,
        first_agree(prev, curr, start, w) < w ==> agrees(
            prev,
            curr,
            start,
            first_agree(prev, curr, start, w),
        ),
        forall|j: int| 0 <= j < first_agree(prev, curr, start, w) ==> !agrees(prev, curr, start, j),
    decreases w,
{
    if w > 0 {
        lemma_first_agree_found(prev, curr, start, w - 1);
    }
}

/// When every compared position agrees, all of them count and the first is 0.
pub proof fn lemma_all_agree(prev: Seq<usize>, curr: Seq<usize>, start: int, w: int)
    requires
        w >= 0,
        forall|j: int| 0 <= j < w ==> agrees(prev, curr, start, j),
    ensures
        count_agree(prev, curr, start, w) == w,
        w > 0 ==> first_agree(prev, curr, start, w) == 0,
    decreases w,
{
    if w > 0 {
        lemma_all_agree(prev, curr, start, w - 1);
        assert(agrees(prev, curr, start, 0));
        if w == 1 {
            assert(first_agree(prev, curr, start, 0) == 0);
        } else {
            assert(first_agree(prev, curr, start, w - 1) == 0);
        }
    }
}

/// The best score over the first `k` offsets, for a boundary of length `l`
/// that no later offset beats.
proof fn lemma_best_progress(prev: Seq<usize>, curr: Seq<usize>, l: int, n: int, k: int)
    requires
        0 <= k <= n,
        0 <= l <= n,
        n <= prev.len(),
        n <= curr.len(),
        forall|j: int| 0 <= j < l ==> prev[prev.len() - l + j] == curr[j],
        forall|o: int| l <= o < n ==> score_at(prev, curr, o) <= l,
    ensures
        k < l ==> 0 <= best_score(prev, curr, k) <= k,
        k >= l ==> best_score(prev, curr, k) == l,
        k >= l && l >= 1 ==> best_offset(prev, curr, k) == l - 1,
    decreases k,
{
    if k > 0 {
        lemma_best_progress(prev, curr, l, n, k - 1);
        let o = k - 1;
        let start = align_start(prev, o);
        let w = align_width(prev, curr, o);
        lemma_first_agree_found(prev, curr, start, w);
        if o == l - 1 {
            assert forall|j: int| 0 <= j < w implies agrees(prev, curr, start, j) by {
                assert(prev[prev.len() - l + j] == curr[j]);
            }
            lemma_all_agree(prev, curr, start, w);
        }
    }
}

/// Stitching recovers a true boundary. When the last `l` accepted tokens are
/// exactly the first `l` new ones, `l` is within the offsets searched, and no
/// offset beyond the boundary lines up more than `l` tokens: with
/// `l >= min_n_overlaps` (and `l >= 1`) the cut pair is `(prev.len() - l, 0)`,
/// which joins the two sequences without repeating the boundary; with
/// `l < min_n_overlaps` there is no overlap.
pub proof fn lemma_stitch_recovers_boundary(
    prev: Seq<usize>,
    curr: Seq<usize>,
    max_n_offsets: usize,
    min_n_overlaps: usize,
    l: int,
)
    requires
        0 <= l <= prev.len(),
        l <= curr.len(),
        l <= max_n_offsets,
        forall|j: int| 0 <= j < l ==> prev[prev.len() - l + j] == curr[j],
        forall|o: int|
            l <= o < n_offsets(prev, curr, max_n_offsets as int) ==> score_at(prev, curr, o) <= l,
    ensures
        l >= 1 && l >= min_n_overlaps ==> {
            &&& chunk_overlap(prev, curr, max_n_offsets as int, min_n_overlaps as int) == Some(
                ((prev.len() - l) as usize, 0usize),
            )
            &&& prev.subrange(0, prev.len() - l) + curr == prev + curr.subrange(l, curr.len() as int)
        },
        l < min_n_overlaps ==> chunk_overlap(
            prev,
            curr,
            max_n_offsets as int,
            min_n_overlaps as int,
        ) is None,
{
    let n = n_offsets(prev, curr, max_n_offsets as int);
    lemma_best_progress(prev, curr, l, n, n);
    if l >= 1 {
        let start = align_start(prev, l - 1);
        let w = align_width(prev, curr, l - 1);
        assert forall|j: int| 0 <= j < w implies agrees(prev, curr, start, j) by {
            assert(prev[prev.len() - l + j] == curr[j]);
        }
        lemma_all_agree(prev, curr, start, w);
        let a = prev.subrange(0, prev.len() - l) + curr;
        let b = prev + curr.subrange(l, curr.len() as int);
        assert(a.len() == b.len());
        assert forall|i: int| 0 <= i < a.len() implies a[i] == b[i] by {
            if i >= prev.len() - l && i < prev.len() {
                assert(prev[prev.len() - l + (i - (prev.len() - l))] == curr[i - (prev.len() - l)]);
            }
        }
        assert(a =~= b);
    }
}

} // verus!
