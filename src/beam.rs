use vstd::prelude::*;

verus! {

/// A partial decoding: the tokens so far and their cumulative log-probability.
///
/// Log-probabilities are fixed-point numbers and never positive; `i64::MIN`
/// stands for probability zero.
pub struct BeamNode {
    pub seq: Vec<usize>,
    pub log_prob: i64,
}

/// One way to extend a live node: its index, the next token, and the
/// cumulative log-probability that results.
#[derive(Clone, Copy)]
pub struct Candidate {
    pub parent: usize,
    pub token: usize,
    pub log_prob: i64,
}

/// Width and termination parameters of a search.
#[derive(Clone, Copy)]
pub struct BeamParams {
    /// Number of nodes kept from one depth to the next.
    pub width: usize,
    /// Largest number of tokens added to the initial sequence.
    pub max_depth: usize,
    /// Token that finishes a sequence.
    pub end_token: usize,
    /// Number of first steps during which special vocabulary entries are excluded.
    pub masked_steps: usize,
}

/// Failures of a search.
pub enum BeamError {
    /// The scoring oracle failed; its message is kept as it was.
    Oracle(String),
    /// The oracle's answer does not have one row per node, one entry per
    /// vocabulary item, or holds a positive log-probability.
    Shape,
}

/// A node as a mathematical value.
pub type NodeView = (Seq<usize>, i64);

pub open spec fn node_view(n: BeamNode) -> NodeView {
    (n.seq@, n.log_prob)
}

pub open spec fn nodes_view(v: Seq<BeamNode>) -> Seq<NodeView> {
    v.map_values(|n: BeamNode| node_view(n))
}

pub open spec fn node_scores(v: Seq<NodeView>) -> Seq<i64> {
    v.map_values(|n: NodeView| n.1)
}

pub open spec fn cand_scores(c: Seq<Candidate>) -> Seq<i64> {
    c.map_values(|x: Candidate| x.log_prob)
}

pub open spec fn seqs_view(s: Seq<Vec<usize>>) -> Seq<Seq<usize>> {
    s.map_values(|b: Vec<usize>| b@)
}

pub open spec fn rows_view(s: Seq<Vec<i64>>) -> Seq<Seq<i64>> {
    s.map_values(|r: Vec<i64>| r@)
}

/// Sum of two log-probabilities, with `i64::MIN` absorbing what falls below it.
pub open spec fn floor_add(a: i64, b: i64) -> i64 {
    if a + b < i64::MIN {
        i64::MIN
    } else {
        (a + b) as i64
    }
}

/// Index of the first maximum of `s` (0 for an empty sequence).
pub open spec fn best_pos(s: Seq<i64>) -> int
    decreases s.len(),
{
    if s.len() <= 1 {
        0
    } else {
        let b = best_pos(s.drop_last());
        if s.last() > s[b] {
            s.len() - 1
        } else {
            b
        }
    }
}

/// Whether token `t` may be chosen at a step where masking is `masked`.
pub open spec fn allowed(special: Seq<bool>, masked: bool, t: int) -> bool {
    !(masked && special[t])
}

/// The candidates extending node `parent` (cumulative log-probability `base`)
/// by each allowed token of `row`, in token order.
pub open spec fn row_cands(
    parent: int,
    base: i64,
    row: Seq<i64>,
    special: Seq<bool>,
    masked: bool,
) -> Seq<Candidate>
    decreases row.len(),
{
    if row.len() == 0 {
        seq![]
    } else {
        let t = row.len() - 1;
        let before = row_cands(parent, base, row.drop_last(), special, masked);
        if allowed(special, masked, t) {
            before.push(
                Candidate { parent: parent as usize, token: t as usize, log_prob: floor_add(base, row[t]) },
            )
        } else {
            before
        }
    }
}

/// The candidates of the first `k` nodes, node by node.
pub open spec fn all_cands(
    nodes: Seq<NodeView>,
    rows: Seq<Seq<i64>>,
    special: Seq<bool>,
    masked: bool,
    k: int,
) -> Seq<Candidate>
    decreases k,
{
    if k <= 0 {
        seq![]
    } else {
        all_cands(nodes, rows, special, masked, k - 1) + row_cands(
            k - 1,
            nodes[k - 1].1,
            rows[k - 1],
            special,
            masked,
        )
    }
}

/// The `k` best candidates, best first; of equal ones, the earlier first.
pub open spec fn top_k(c: Seq<Candidate>, k: nat) -> Seq<Candidate>
    decreases k,
{
    if k == 0 || c.len() == 0 {
        seq![]
    } else {
        let b = best_pos(cand_scores(c));
        seq![c[b]] + top_k(c.remove(b), (k - 1) as nat)
    }
}

/// The node that candidate `c` makes.
pub open spec fn extend(nodes: Seq<NodeView>, c: Candidate) -> NodeView {
    (nodes[c.parent as int].0.push(c.token), c.log_prob)
}

/// The oracle's answer fits `n` nodes over a vocabulary of `vocab` entries.
pub open spec fn scores_ok(n: nat, rows: Seq<Seq<i64>>, vocab: nat) -> bool {
    &&& rows.len() == n
    &&& forall|i: int| 0 <= i < n ==> #[trigger] rows[i].len() == vocab
    &&& forall|i: int, t: int| 0 <= i < n && 0 <= t < vocab ==> #[trigger] rows[i][t] <= 0
}

/// The next generation: the `width` best extensions of all nodes.
pub open spec fn step_spec(
    nodes: Seq<NodeView>,
    rows: Seq<Seq<i64>>,
    special: Seq<bool>,
    masked: bool,
    width: nat,
) -> Seq<NodeView> {
    top_k(all_cands(nodes, rows, special, masked, nodes.len() as int), width).map_values(
        |c: Candidate| extend(nodes, c),
    )
}

/// Every node has a log-probability of at most 0.
pub open spec fn nodes_nonpositive(nodes: Seq<NodeView>) -> bool {
    forall|i: int| 0 <= i < nodes.len() ==> #[trigger] nodes[i].1 <= 0
}

fn floor_add_exec(a: i64, b: i64) -> (r: i64)
    requires
        a <= 0,
        b <= 0,
    ensures
        r == floor_add(a, b),
        r <= 0,
{
    if a < i64::MIN - b {
        i64::MIN
    } else {
        a + b
    }
}

fn best_node_index(nodes: &Vec<BeamNode>) -> (r: usize)
    requires
        nodes.len() > 0,
    ensures
        r == best_pos(node_scores(nodes_view(nodes@))),
        r < nodes.len(),
{
    let ghost s = node_scores(nodes_view(nodes@));
    let mut b: usize = 0;
    let mut i: usize = 1;
    assert(s.subrange(0, 1).len() == 1);
    while i < nodes.len()
        invariant
            1 <= i <= nodes.len(),
            b < i,
            s == node_scores(nodes_view(nodes@)),
            b == best_pos(s.subrange(0, i as int)),
        decreases nodes.len() - i,
    {
        let ghost sub = s.subrange(0, i as int + 1);
        assert(sub.drop_last() =~= s.subrange(0, i as int));
        assert(sub.last() == nodes[i as int].log_prob);
        assert(s.subrange(0, i as int)[b as int] == nodes[b as int].log_prob);
        if nodes[i].log_prob > nodes[b].log_prob {
            b = i;
        }
        i = i + 1;
    }
    assert(s.subrange(0, i as int) =~= s);
    b
}

fn best_candidate_index(c: &Vec<Candidate>) -> (r: usize)
    requires
        c.len() > 0,
    ensures
        r == best_pos(cand_scores(c@)),
        r < c.len(),
{
    let ghost s = cand_scores(c@);
    let mut b: usize = 0;
    let mut i: usize = 1;
    assert(s.subrange(0, 1).len() == 1);
    while i < c.len()
        invariant
            1 <= i <= c.len(),
            b < i,
            s == cand_scores(c@),
            b == best_pos(s.subrange(0, i as int)),
        decreases c.len() - i,
    {
        let ghost sub = s.subrange(0, i as int + 1);
        assert(sub.drop_last() =~= s.subrange(0, i as int));
        assert(sub.last() == c[i as int].log_prob);
        assert(s.subrange(0, i as int)[b as int] == c[b as int].log_prob);
        if c[i].log_prob > c[b].log_prob {
            b = i;
        }
        i = i + 1;
    }
    assert(s.subrange(0, i as int) =~= s);
    b
}

/// Keeps the `k` best candidates, best first.
pub fn top_candidates(cands: Vec<Candidate>, k: usize) -> (r: Vec<Candidate>)
    ensures
        r@ == top_k(cands@, k as nat),
{
    let ghost all = cands@;
    let mut rest = cands;
    let mut out: Vec<Candidate> = Vec::new();
    let mut taken: usize = 0;
    assert(out@ + top_k(rest@, k as nat) =~= top_k(all, k as nat));
    while taken < k && rest.len() > 0
        invariant
            taken <= k,
            out@ + top_k(rest@, (k - taken) as nat) == top_k(all, k as nat),
        decreases k - taken,
    {
        let b = best_candidate_index(&rest);
        let ghost before = rest@;
        let c = rest.remove(b);
        let ghost tail = top_k(rest@, (k - taken - 1) as nat);
        assert(top_k(before, (k - taken) as nat) == seq![c] + tail);
        assert(out@.push(c) + tail =~= out@ + (seq![c] + tail));
        out.push(c);
        taken = taken + 1;
    }
    assert(top_k(rest@, (k - taken) as nat) =~= Seq::<Candidate>::empty());
    assert(out@ + Seq::<Candidate>::empty() =~= out@);
    out
}

fn scores_valid(n: usize, scores: &Vec<Vec<i64>>, vocab: usize) -> (r: bool)
    ensures
        r == scores_ok(n as nat, rows_view(scores@), vocab as nat),
{
    let ghost rows = rows_view(scores@);
    if scores.len() != n {
        return false;
    }
    let mut i: usize = 0;
    while i < n
        invariant
            i <= n,
            scores.len() == n,
            rows == rows_view(scores@),
            forall|a: int| 0 <= a < i ==> #[trigger] rows[a].len() == vocab,
            forall|a: int, t: int| 0 <= a < i && 0 <= t < vocab ==> #[trigger] rows[a][t] <= 0,
        decreases n - i,
    {
        let row = &scores[i];
        assert(rows[i as int] == row@);
        if row.len() != vocab {
            return false;
        }
        let mut t: usize = 0;
        while t < vocab
            invariant
                t <= vocab,
                row.len() == vocab,
                i < n,
                scores.len() == n,
                rows == rows_view(scores@),
                row@ == rows[i as int],
                forall|u: int| 0 <= u < t ==> row@[u] <= 0,
            decreases vocab - t,
        {
            if row[t] > 0 {
                assert(rows[i as int][t as int] > 0);
                return false;
            }
            t = t + 1;
        }
        i = i + 1;
    }
    true
}

/// All candidates of all nodes, node by node and token by token.
fn collect_candidates(
    nodes: &Vec<BeamNode>,
    scores: &Vec<Vec<i64>>,
    special: &Vec<bool>,
    masked: bool,
) -> (r: Vec<Candidate>)
    requires
        scores_ok(nodes.len() as nat, rows_view(scores@), special.len() as nat),
        nodes_nonpositive(nodes_view(nodes@)),
    ensures
        r@ == all_cands(
            nodes_view(nodes@),
            rows_view(scores@),
            special@,
            masked,
            nodes.len() as int,
        ),
{
    let ghost nv = nodes_view(nodes@);
    let ghost rows = rows_view(scores@);
    let mut cands: Vec<Candidate> = Vec::new();
    let mut i: usize = 0;
    while i < nodes.len()
        invariant
            i <= nodes.len(),
            nv == nodes_view(nodes@),
            rows == rows_view(scores@),
            scores_ok(nodes.len() as nat, rows, special.len() as nat),
            nodes_nonpositive(nv),
            cands@ == all_cands(nv, rows, special@, masked, i as int),
        decreases nodes.len() - i,
    {
        let row = &scores[i];
        let base = nodes[i].log_prob;
        assert(rows[i as int] == row@);
        assert(nv[i as int].1 == base);
        assert(row.len() == special.len());
        let ghost prefix = all_cands(nv, rows, special@, masked, i as int);
        let mut t: usize = 0;
        assert(row@.subrange(0, 0) =~= Seq::<i64>::empty());
        assert(prefix + row_cands(i as int, base, row@.subrange(0, 0), special@, masked) =~= prefix);
        while t < row.len()
            invariant
                t <= row.len(),
                row.len() == special.len(),
                row@ == rows[i as int],
                base <= 0,
                forall|u: int| 0 <= u < row.len() ==> row@[u] <= 0,
                cands@ == prefix + row_cands(i as int, base, row@.subrange(0, t as int), special@, masked),
            decreases row.len() - t,
        {
            let ghost sub = row@.subrange(0, t as int + 1);
            assert(sub.drop_last() =~= row@.subrange(0, t as int));
            assert(sub.last() == row@[t as int]);
            if !(masked && special[t]) {
                let c = Candidate { parent: i, token: t, log_prob: floor_add_exec(base, row[t]) };
                cands.push(c);
                assert(cands@ =~= prefix + row_cands(i as int, base, sub, special@, masked));
            }
            t = t + 1;
        }
        assert(row@.subrange(0, row.len() as int) =~= row@);
        i = i + 1;
    }
    cands
}

/// Candidate `x` extends node `parent` by an allowed token of `row`.
pub open spec fn row_cand_ok(
    x: Candidate,
    parent: int,
    base: i64,
    row: Seq<i64>,
    special: Seq<bool>,
    masked: bool,
) -> bool {
    &&& x.parent == parent
    &&& x.token < row.len()
    &&& allowed(special, masked, x.token as int)
    &&& x.log_prob == floor_add(base, row[x.token as int])
}

/// What each candidate of one row is made of.
pub proof fn lemma_row_cands_props(
    parent: int,
    base: i64,
    row: Seq<i64>,
    special: Seq<bool>,
    masked: bool,
)
    requires
        0 <= parent <= usize::MAX,
        row.len() <= usize::MAX + 1,
    ensures
        forall|q: int|
            0 <= q < row_cands(parent, base, row, special, masked).len() ==> row_cand_ok(
                #[trigger] row_cands(parent, base, row, special, masked)[q],
                parent,
                base,
                row,
                special,
                masked,
            ),
    decreases row.len(),
{
    if row.len() > 0 {
        let d = row.drop_last();
        lemma_row_cands_props(parent, base, d, special, masked);
        let before = row_cands(parent, base, d, special, masked);
        let c = row_cands(parent, base, row, special, masked);
        assert forall|q: int| 0 <= q < c.len() implies row_cand_ok(
            #[trigger] c[q],
            parent,
            base,
            row,
            special,
            masked,
        ) by {
            if q < before.len() {
                assert(row_cand_ok(before[q], parent, base, d, special, masked));
                assert(c[q] == before[q]);
                assert(d[before[q].token as int] == row[before[q].token as int]);
            }
        }
    }
}

/// What each candidate of the first `k` nodes is made of.
pub proof fn lemma_all_cands_props(
    nodes: Seq<NodeView>,
    rows: Seq<Seq<i64>>,
    special: Seq<bool>,
    masked: bool,
    k: int,
)
    requires
        0 <= k <= nodes.len(),
        k <= rows.len(),
        k <= usize::MAX,
        forall|i: int| 0 <= i < k ==> #[trigger] rows[i].len() <= usize::MAX,
    ensures
        ({
            let c = all_cands(nodes, rows, special, masked, k);
            forall|q: int|
                0 <= q < c.len() ==> {
                    &&& #[trigger] c[q].parent < k
                    &&& c[q].token < rows[c[q].parent as int].len()
                    &&& allowed(special, masked, c[q].token as int)
                    &&& c[q].log_prob == floor_add(
                        nodes[c[q].parent as int].1,
                        rows[c[q].parent as int][c[q].token as int],
                    )
                }
        }),
    decreases k,
{
    if k > 0 {
        lemma_all_cands_props(nodes, rows, special, masked, k - 1);
        lemma_row_cands_props(k - 1, nodes[k - 1].1, rows[k - 1], special, masked);
        let a = all_cands(nodes, rows, special, masked, k - 1);
        let b = row_cands(k - 1, nodes[k - 1].1, rows[k - 1], special, masked);
        assert forall|q: int| 0 <= q < (a + b).len() implies {
            &&& #[trigger] (a + b)[q].parent < k
            &&& (a + b)[q].token < rows[(a + b)[q].parent as int].len()
            &&& allowed(special, masked, (a + b)[q].token as int)
            &&& (a + b)[q].log_prob == floor_add(
                nodes[(a + b)[q].parent as int].1,
                rows[(a + b)[q].parent as int][(a + b)[q].token as int],
            )
        } by {
            if q >= a.len() {
                assert(row_cand_ok(b[q - a.len()], k - 1, nodes[k - 1].1, rows[k - 1], special, masked));
                assert((a + b)[q] == b[q - a.len()]);
            } else {
                assert((a + b)[q] == a[q]);
            }
        }
    }
}

/// The best `k` are drawn from the candidates.
pub proof fn lemma_top_k_from(c: Seq<Candidate>, k: nat)
    ensures
        top_k(c, k).len() <= c.len(),
        top_k(c, k).len() <= k,
        k > 0 && c.len() > 0 ==> top_k(c, k).len() > 0,
        forall|j: int|
            0 <= j < top_k(c, k).len() ==> exists|q: int|
                0 <= q < c.len() && c[q] == #[trigger] top_k(c, k)[j],
    decreases k,
{
    if k > 0 && c.len() > 0 {
        let b = best_pos(cand_scores(c));
        lemma_best_pos_max(cand_scores(c));
        let rest = c.remove(b);
        lemma_top_k_from(rest, (k - 1) as nat);
        let t = top_k(c, k);
        assert forall|j: int| 0 <= j < t.len() implies exists|q: int|
            0 <= q < c.len() && c[q] == #[trigger] t[j] by {
            if j == 0 {
                assert(c[b] == t[0]);
            } else {
                let tail = top_k(rest, (k - 1) as nat);
                assert(t[j] == tail[j - 1]);
                let q0 = choose|q: int| 0 <= q < rest.len() && rest[q] == #[trigger] tail[j - 1];
                if q0 < b {
                    assert(c[q0] == t[j]);
                } else {
                    assert(c[q0 + 1] == t[j]);
                }
            }
        }
    }
}

/// The first maximum is a maximum, and nothing before it reaches it.
pub proof fn lemma_best_pos_max(s: Seq<i64>)
    ensures
        s.len() > 0 ==> 0 <= best_pos(s) < s.len(),
        s.len() > 0 ==> forall|j: int| 0 <= j < s.len() ==> #[trigger] s[j] <= s[best_pos(s)],
        s.len() > 0 ==> forall|j: int| 0 <= j < best_pos(s) ==> #[trigger] s[j] < s[best_pos(s)],
    decreases s.len(),
{
    if s.len() > 1 {
        lemma_best_pos_max(s.drop_last());
        let d = s.drop_last();
        assert forall|j: int| 0 <= j < d.len() implies #[trigger] s[j] == d[j] by {}
    }
}

/// One step of the search over the given oracle answer: `None` when the answer
/// does not fit, else the `width` best extensions of the live nodes.
pub fn beam_step(
    nodes: &Vec<BeamNode>,
    scores: &Vec<Vec<i64>>,
    special: &Vec<bool>,
    masked: bool,
    width: usize,
) -> (r: Option<Vec<BeamNode>>)
    requires
        nodes_nonpositive(nodes_view(nodes@)),
    ensures
        r is Some <==> scores_ok(nodes.len() as nat, rows_view(scores@), special.len() as nat),
        r matches Some(v) ==> nodes_view(v@) == step_spec(
            nodes_view(nodes@),
            rows_view(scores@),
            special@,
            masked,
            width as nat,
        ),
        r matches Some(v) ==> nodes_nonpositive(nodes_view(v@)),
{
    if !scores_valid(nodes.len(), scores, special.len()) {
        return None;
    }
    let ghost nv = nodes_view(nodes@);
    let ghost rows = rows_view(scores@);
    let cands = collect_candidates(nodes, scores, special, masked);
    let ghost all = cands@;
    let top = top_candidates(cands, width);
    proof {
        lemma_all_cands_props(nv, rows, special@, masked, nodes.len() as int);
        lemma_top_k_from(all, width as nat);
    }
    let mut next: Vec<BeamNode> = Vec::new();
    let mut j: usize = 0;
    while j < top.len()
        invariant
            j <= top.len(),
            nv == nodes_view(nodes@),
            rows == rows_view(scores@),
            top@ == top_k(all, width as nat),
            all == all_cands(nv, rows, special@, masked, nodes.len() as int),
            scores_ok(nodes.len() as nat, rows, special.len() as nat),
            nodes_nonpositive(nv),
            forall|q: int|
                0 <= q < all.len() ==> {
                    &&& #[trigger] all[q].parent < nodes.len()
                    &&& all[q].log_prob == floor_add(
                        nv[all[q].parent as int].1,
                        rows[all[q].parent as int][all[q].token as int],
                    )
                    &&& all[q].token < rows[all[q].parent as int].len()
                },
            forall|i: int|
                0 <= i < top.len() ==> exists|q: int|
                    0 <= q < all.len() && all[q] == #[trigger] top@[i],
            nodes_view(next@) == top@.subrange(0, j as int).map_values(
                |c: Candidate| extend(nv, c),
            ),
            nodes_nonpositive(nodes_view(next@)),
        decreases top.len() - j,
    {
        let c = top[j];
        let ghost q = choose|q: int| 0 <= q < all.len() && all[q] == #[trigger] top@[j as int];
        assert(all[q] == c);
        assert(c.parent < nodes.len());
        assert(nv[c.parent as int].1 <= 0);
        assert(rows[c.parent as int][c.token as int] <= 0);
        let mut seq = nodes[c.parent].seq.clone();
        assert(seq@ =~= nodes[c.parent as int].seq@);
        seq.push(c.token);
        let node = BeamNode { seq, log_prob: c.log_prob };
        let ghost before = next@;
        next.push(node);
        proof {
            assert(node_view(node) == extend(nv, c));
            assert(nodes_view(next@) =~= nodes_view(before).push(node_view(node)));
            assert(top@.subrange(0, j as int + 1).map_values(|c: Candidate| extend(nv, c))
                =~= top@.subrange(0, j as int).map_values(|c: Candidate| extend(nv, c)).push(
                extend(nv, c),
            ));
            assert forall|i: int| 0 <= i < nodes_view(next@).len() implies #[trigger] nodes_view(
                next@,
            )[i].1 <= 0 by {
                if i < before.len() {
                    assert(nodes_view(next@)[i] == nodes_view(before)[i]);
                }
            }
        }
        j = j + 1;
    }
    assert(top@.subrange(0, top.len() as int) =~= top@);
    Some(next)
}

/// The scoring oracle: the inference backend seen from the decoder.
pub trait ScoringOracle {
    /// Makes the samples `[start, end)` of the audio the input that later
    /// scores are about.
    fn select_window(&mut self, start: usize, end: usize) -> Result<(), String>;

    /// For each sequence of the batch, the log-probability (in the fixed
    /// point of `BeamNode`) of every vocabulary entry coming next.
    fn score(&self, batch: &Vec<Vec<usize>>) -> Result<Vec<Vec<i64>>, String>;
}

/// Whatever `oracle` is declared to answer with success for a batch is what
/// `answers` gives for it.
pub open spec fn follows<F: Fn(&Vec<Vec<usize>>) -> Result<Vec<Vec<i64>>, String>>(
    oracle: F,
    answers: spec_fn(Seq<Seq<usize>>) -> Seq<Seq<i64>>,
) -> bool {
    forall|b: &Vec<Vec<usize>>, out: Result<Vec<Vec<i64>>, String>|
        #[trigger] call_ensures(oracle, (b,), out) ==> (out matches Ok(s) ==> rows_view(s@)
            == answers(seqs_view(b@)))
}

/// The state of a search as a mathematical value.
pub struct SearchView {
    pub nodes: Seq<NodeView>,
    pub depth: nat,
    pub exhausted: bool,
}

pub open spec fn finished(seq: Seq<usize>, end_token: usize) -> bool {
    seq.len() > 0 && seq.last() == end_token
}

/// Tokens of the node with the highest log-probability (the first of equals).
pub open spec fn best_seq(nodes: Seq<NodeView>) -> Seq<usize> {
    if nodes.len() == 0 {
        seq![]
    } else {
        nodes[best_pos(node_scores(nodes))].0
    }
}

/// The search stops when no candidate was left, when `max_depth` tokens were
/// added, or when the best node is finished.
pub open spec fn search_done(v: SearchView, p: BeamParams) -> bool {
    v.exhausted || v.depth >= p.max_depth || v.nodes.len() == 0 || finished(
        best_seq(v.nodes),
        p.end_token,
    )
}

/// The sequences handed to the oracle.
pub open spec fn batch_of(nodes: Seq<NodeView>) -> Seq<Seq<usize>> {
    nodes.map_values(|n: NodeView| n.0)
}

pub open spec fn initial_view(initial: Seq<usize>) -> SearchView {
    SearchView { nodes: seq![(initial, 0i64)], depth: 0, exhausted: false }
}

/// One step on the oracle answer `rows`; `None` when it does not fit.
pub open spec fn advance_spec(
    v: SearchView,
    rows: Seq<Seq<i64>>,
    special: Seq<bool>,
    p: BeamParams,
) -> Option<SearchView> {
    if !scores_ok(v.nodes.len(), rows, special.len()) {
        None
    } else {
        let next = step_spec(v.nodes, rows, special, v.depth < p.masked_steps, p.width as nat);
        if next.len() == 0 {
            Some(SearchView { nodes: v.nodes, depth: v.depth, exhausted: true })
        } else {
            Some(SearchView { nodes: next, depth: v.depth + 1, exhausted: false })
        }
    }
}

/// The whole search against an oracle given as a function of the batch.
pub open spec fn run_spec(
    v: SearchView,
    oracle: spec_fn(Seq<Seq<usize>>) -> Seq<Seq<i64>>,
    special: Seq<bool>,
    p: BeamParams,
) -> SearchView
    decreases p.max_depth - v.depth,
{
    if search_done(v, p) {
        v
    } else {
        match advance_spec(v, oracle(batch_of(v.nodes)), special, p) {
            None => v,
            Some(n) => if n.exhausted {
                n
            } else {
                run_spec(n, oracle, special, p)
            },
        }
    }
}

/// Whether the search against `oracle` stops on an answer that does not fit.
pub open spec fn run_fails(
    v: SearchView,
    oracle: spec_fn(Seq<Seq<usize>>) -> Seq<Seq<i64>>,
    special: Seq<bool>,
    p: BeamParams,
) -> bool
    decreases p.max_depth - v.depth,
{
    if search_done(v, p) {
        false
    } else {
        match advance_spec(v, oracle(batch_of(v.nodes)), special, p) {
            None => true,
            Some(n) => if n.exhausted {
                false
            } else {
                run_fails(n, oracle, special, p)
            },
        }
    }
}

/// Every token after the first `m` is in the vocabulary, and none of those
/// chosen in the first `masked_steps` steps is a control token.
pub open spec fn nodes_tokens_ok(
    nodes: Seq<NodeView>,
    m: nat,
    special: Seq<bool>,
    masked_steps: nat,
) -> bool {
    forall|i: int, j: int|
        0 <= i < nodes.len() && m <= j < nodes[i].0.len() ==> #[trigger] nodes[i].0[j]
            < special.len() && (j - m < masked_steps ==> !special[nodes[i].0[j] as int])
}

/// Every node holds `initial` followed by `depth` tokens.
pub open spec fn nodes_extend(nodes: Seq<NodeView>, initial: Seq<usize>, depth: nat) -> bool {
    forall|i: int|
        0 <= i < nodes.len() ==> {
            &&& #[trigger] nodes[i].0.len() == initial.len() + depth
            &&& nodes[i].0.subrange(0, initial.len() as int) == initial
        }
}

/// A step extends every kept node by one token.
pub proof fn lemma_step_extends(
    nodes: Seq<NodeView>,
    rows: Seq<Seq<i64>>,
    special: Seq<bool>,
    masked: bool,
    width: nat,
    initial: Seq<usize>,
    depth: nat,
    masked_steps: nat,
)
    requires
        nodes_extend(nodes, initial, depth),
        nodes_tokens_ok(nodes, initial.len(), special, masked_steps),
        masked == (depth < masked_steps),
        scores_ok(nodes.len(), rows, special.len()),
        nodes.len() <= usize::MAX,
        special.len() <= usize::MAX,
    ensures
        nodes_extend(step_spec(nodes, rows, special, masked, width), initial, depth + 1),
        nodes_tokens_ok(
            step_spec(nodes, rows, special, masked, width),
            initial.len(),
            special,
            masked_steps,
        ),
{
    let all = all_cands(nodes, rows, special, masked, nodes.len() as int);
    lemma_all_cands_props(nodes, rows, special, masked, nodes.len() as int);
    lemma_top_k_from(all, width);
    let top = top_k(all, width);
    let next = step_spec(nodes, rows, special, masked, width);
    assert forall|i: int| 0 <= i < next.len() implies {
        &&& #[trigger] next[i].0.len() == initial.len() + depth + 1
        &&& next[i].0.subrange(0, initial.len() as int) == initial
    } by {
        let q = choose|q: int| 0 <= q < all.len() && all[q] == #[trigger] top[i];
        assert(all[q].parent < nodes.len());
        let parent = nodes[top[i].parent as int].0;
        assert(next[i] == extend(nodes, top[i]));
        assert(parent.push(top[i].token).subrange(0, initial.len() as int) =~= parent.subrange(
            0,
            initial.len() as int,
        ));
    }
    assert forall|i: int, j: int|
        0 <= i < next.len() && initial.len() <= j < next[i].0.len() implies #[trigger] next[i].0[j]
        < special.len() && (j - initial.len() < masked_steps ==> !special[next[i].0[j] as int]) by {
        let q = choose|q: int| 0 <= q < all.len() && all[q] == #[trigger] top[i];
        assert(all[q].parent < nodes.len());
        let pi = top[i].parent as int;
        let parent = nodes[pi].0;
        assert(next[i] == extend(nodes, top[i]));
        assert(rows[pi].len() == special.len());
        if j < parent.len() {
            assert(next[i].0[j] == parent[j]);
            assert(nodes[pi].0[j] == parent[j]);
        } else {
            assert(next[i].0[j] == top[i].token);
        }
    }
}

/// A beam search in progress.
pub struct BeamSearch {
    pub nodes: Vec<BeamNode>,
    pub depth: usize,
    pub exhausted: bool,
    pub params: BeamParams,
    pub special: Vec<bool>,
}

impl BeamSearch {
    pub open spec fn view(&self) -> SearchView {
        SearchView {
            nodes: nodes_view(self.nodes@),
            depth: self.depth as nat,
            exhausted: self.exhausted,
        }
    }

    pub open spec fn wf(&self) -> bool {
        &&& nodes_nonpositive(nodes_view(self.nodes@))
        &&& self.nodes.len() > 0
    }

    /// Starts from one node holding `initial` at log-probability 0;
    /// `special[t]` tells whether vocabulary entry `t` is a control token.
    pub fn new(initial: Vec<usize>, params: BeamParams, special: Vec<bool>) -> (r: BeamSearch)
        ensures
            r.wf(),
            r.view() == initial_view(initial@),
            r.params == params,
            r.special@ == special@,
    {
        let mut nodes: Vec<BeamNode> = Vec::new();
        nodes.push(BeamNode { seq: initial, log_prob: 0 });
        let r = BeamSearch { nodes, depth: 0, exhausted: false, params, special };
        assert(r.view().nodes =~= initial_view(initial@).nodes);
        r
    }

    fn best_index(&self) -> (r: usize)
        requires
            self.wf(),
        ensures
            r == best_pos(node_scores(self.view().nodes)),
            r < self.nodes.len(),
    {
        best_node_index(&self.nodes)
    }

    /// Whether the search has stopped.
    pub fn is_done(&self) -> (r: bool)
        requires
            self.wf(),
        ensures
            r == search_done(self.view(), self.params),
    {
        if self.exhausted || self.depth >= self.params.max_depth {
            return true;
        }
        let b = self.best_index();
        let seq = &self.nodes[b].seq;
        seq.len() > 0 && seq[seq.len() - 1] == self.params.end_token
    }

    /// The sequences to score next, one per live node.
    pub fn batch(&self) -> (r: Vec<Vec<usize>>)
        ensures
            seqs_view(r@) == batch_of(self.view().nodes),
    {
        let mut out: Vec<Vec<usize>> = Vec::new();
        let mut i: usize = 0;
        while i < self.nodes.len()
            invariant
                i <= self.nodes.len(),
                out.len() == i,
                seqs_view(out@) == batch_of(
                    nodes_view(self.nodes@).subrange(0, i as int),
                ),
            decreases self.nodes.len() - i,
        {
            let s = self.nodes[i].seq.clone();
            assert(s@ =~= self.nodes[i as int].seq@);
            let ghost before = out@;
            out.push(s);
            proof {
                let a = seqs_view(out@);
                let b = batch_of(nodes_view(self.nodes@).subrange(0, i as int + 1));
                let c = batch_of(nodes_view(self.nodes@).subrange(0, i as int));
                assert(a.len() == b.len());
                assert forall|j: int| 0 <= j < a.len() implies a[j] == b[j] by {
                    if j < i {
                        assert(a[j] == seqs_view(before)[j]);
                        assert(b[j] == c[j]);
                    }
                }
                assert(a =~= b);
            }
            i = i + 1;
        }
        assert(nodes_view(self.nodes@).subrange(0, i as int) =~= nodes_view(self.nodes@));
        out
    }

    /// Moves one depth on, given the oracle's answer for `batch()`.
    pub fn advance(&mut self, scores: &Vec<Vec<i64>>) -> (r: Result<(), BeamError>)
        requires
            old(self).wf(),
            !search_done(old(self).view(), old(self).params),
        ensures
            final(self).wf(),
            final(self).params == old(self).params,
            final(self).special@ == old(self).special@,
            match advance_spec(
                old(self).view(),
                rows_view(scores@),
                old(self).special@,
                old(self).params,
            ) {
                None => r is Err && final(self).view() == old(self).view(),
                Some(n) => r is Ok && final(self).view() == n,
            },
    {
        let masked = self.depth < self.params.masked_steps;
        match beam_step(&self.nodes, scores, &self.special, masked, self.params.width) {
            None => Err(BeamError::Shape),
            Some(next) => {
                if next.len() == 0 {
                    self.exhausted = true;
                } else {
                    self.nodes = next;
                    self.depth = self.depth + 1;
                }
                Ok(())
            },
        }
    }

    /// The tokens of the best node.
    pub fn best(&self) -> (r: Vec<usize>)
        requires
            self.wf(),
        ensures
            r@ == best_seq(self.view().nodes),
    {
        let b = self.best_index();
        let r = self.nodes[b].seq.clone();
        assert(r@ =~= self.nodes[b as int].seq@);
        r
    }
}

/// Decodes from `initial` with the scoring oracle `oracle`: the best finished
/// sequence, or the best one found when `max_depth` tokens were added or no
/// candidate was left. Whatever the oracle answers, the result is `initial`
/// followed by at most `max_depth` tokens, of which those chosen in the first
/// `masked_steps` steps are no control tokens. For every function of the
/// batch that the oracle's answers follow, the result is the search of
/// `run_spec` against it.
pub fn beam_search_with<F: Fn(&Vec<Vec<usize>>) -> Result<Vec<Vec<i64>>, String>>(
    oracle: &F,
    initial: Vec<usize>,
    special: Vec<bool>,
    params: BeamParams,
) -> (r: Result<Vec<usize>, BeamError>)
    requires
        forall|b: &Vec<Vec<usize>>| #[trigger] call_requires(*oracle, (b,)),
    ensures
        forall|answers: spec_fn(Seq<Seq<usize>>) -> Seq<Seq<i64>>|
            #[trigger] follows(*oracle, answers) ==> {
                &&& r matches Ok(s) ==> s@ == best_seq(
                    run_spec(initial_view(initial@), answers, special@, params).nodes,
                )
                &&& r matches Ok(s) ==> finished(s@, params.end_token) || s@.len()
                    == initial@.len() + params.max_depth || run_spec(
                    initial_view(initial@),
                    answers,
                    special@,
                    params,
                ).exhausted
                &&& r is Ok ==> !run_fails(initial_view(initial@), answers, special@, params)
                &&& r matches Err(BeamError::Shape) ==> run_fails(
                    initial_view(initial@),
                    answers,
                    special@,
                    params,
                )
            },
        params.max_depth == 0 || finished(initial@, params.end_token) ==> (r matches Ok(s) && s@
            == initial@),
        r matches Ok(s) ==> {
            &&& initial@.len() <= s@.len() <= initial@.len() + params.max_depth
            &&& s@.subrange(0, initial@.len() as int) == initial@
            &&& forall|j: int|
                initial@.len() <= j < s@.len() ==> #[trigger] s@[j] < special@.len() && (j
                    - initial@.len() < params.masked_steps ==> !special@[s@[j] as int])
        },
{
    let ghost init = initial@;
    let ghost sp = special@;
    let ghost start = initial_view(init);
    let n_special: usize = special.len();
    let mut search = BeamSearch::new(initial, params, special);
    assert(init.subrange(0, init.len() as int) =~= init);
    assert(best_seq(start.nodes) == init);
    while !search.is_done()
        invariant
            search.wf(),
            search.params == params,
            search.depth <= params.max_depth,
            search.special@.len() == n_special,
            search.special@ == sp,
            forall|b: &Vec<Vec<usize>>| #[trigger] call_requires(*oracle, (b,)),
            nodes_extend(search.view().nodes, init, search.depth as nat),
            nodes_tokens_ok(search.view().nodes, init.len(), sp, params.masked_steps as nat),
            forall|answers: spec_fn(Seq<Seq<usize>>) -> Seq<Seq<i64>>|
                #[trigger] follows(*oracle, answers) ==> run_spec(search.view(), answers, sp, params)
                    == run_spec(start, answers, sp, params) && run_fails(
                    search.view(),
                    answers,
                    sp,
                    params,
                ) == run_fails(start, answers, sp, params),
            params.max_depth == 0 || finished(init, params.end_token) ==> search.view() == start,
            best_seq(start.nodes) == init,
            start == initial_view(init),
            init == initial@,
            sp == special@,
        decreases (params.max_depth - search.depth) * 2 + if search.exhausted {
            0int
        } else {
            1int
        },
    {
        proof {
            if params.max_depth == 0 || finished(init, params.end_token) {
                assert(search_done(start, params));
            }
        }
        let batch = search.batch();
        let scores = match oracle(&batch) {
            Ok(s) => s,
            Err(e) => {
                return Err(BeamError::Oracle(e));
            },
        };
        let ghost before = search.view();
        proof {
            assert(call_ensures(*oracle, (&batch,), Ok::<Vec<Vec<i64>>, String>(scores)));
            assert forall|answers: spec_fn(Seq<Seq<usize>>) -> Seq<Seq<i64>>|
                #[trigger] follows(*oracle, answers) implies rows_view(scores@) == answers(
                batch_of(before.nodes),
            ) by {
                assert(call_ensures(*oracle, (&batch,), Ok::<Vec<Vec<i64>>, String>(scores)));
            }
            if scores_ok(before.nodes.len(), rows_view(scores@), search.special@.len()) {
                lemma_step_extends(
                    before.nodes,
                    rows_view(scores@),
                    search.special@,
                    before.depth < params.masked_steps,
                    params.width as nat,
                    init,
                    before.depth,
                    params.masked_steps as nat,
                );
            }
        }
        let stepped = search.advance(&scores);
        proof {
            let after = search.view();
            if after.exhausted {
                assert(search_done(after, params));
            }
            assert forall|answers: spec_fn(Seq<Seq<usize>>) -> Seq<Seq<i64>>|
                #[trigger] follows(*oracle, answers) implies (stepped is Ok ==> run_spec(
                after,
                answers,
                sp,
                params,
            ) == run_spec(start, answers, sp, params) && run_fails(after, answers, sp, params)
                == run_fails(start, answers, sp, params)) && (stepped is Err ==> run_fails(
                start,
                answers,
                sp,
                params,
            )) by {
                assert(rows_view(scores@) == answers(batch_of(before.nodes)));
            }
        }
        if stepped.is_err() {
            return Err(BeamError::Shape);
        }
    }
    let best = search.best();
    proof {
        let nv = search.view().nodes;
        lemma_best_pos_max(node_scores(nv));
        let b = best_pos(node_scores(nv));
        assert(nv[b].0.len() == init.len() + search.depth);
        assert forall|j: int| init.len() <= j < best@.len() implies #[trigger] best@[j] < sp.len()
            && (j - init.len() < params.masked_steps ==> !sp[best@[j] as int]) by {
            assert(best@[j] == nv[b].0[j]);
        }
    }
    Ok(best)
}

/// Decodes from `initial` with the scoring oracle of a backend; see
/// `beam_search_with`.
pub fn beam_search<O: ScoringOracle>(
    oracle: &O,
    initial: Vec<usize>,
    special: Vec<bool>,
    params: BeamParams,
) -> (r: Result<Vec<usize>, BeamError>)
    ensures
        params.max_depth == 0 || finished(initial@, params.end_token) ==> (r matches Ok(s) && s@
            == initial@),
        r matches Ok(s) ==> {
            &&& initial@.len() <= s@.len() <= initial@.len() + params.max_depth
            &&& s@.subrange(0, initial@.len() as int) == initial@
            &&& forall|j: int|
                initial@.len() <= j < s@.len() ==> #[trigger] s@[j] < special@.len() && (j
                    - initial@.len() < params.masked_steps ==> !special@[s@[j] as int])
        },
{
    let score = |b: &Vec<Vec<usize>>| -> (out: Result<Vec<Vec<i64>>, String>) { oracle.score(b) };
    beam_search_with(&score, initial, special, params)
}

/// An allowed token of a row has its candidate.
pub proof fn lemma_row_cands_has(
    parent: int,
    base: i64,
    row: Seq<i64>,
    special: Seq<bool>,
    masked: bool,
    t: int,
)
    requires
        0 <= t < row.len(),
        allowed(special, masked, t),
    ensures
        exists|q: int|
            0 <= q < row_cands(parent, base, row, special, masked).len() && #[trigger] row_cands(
                parent,
                base,
                row,
                special,
                masked,
            )[q] == (Candidate {
                parent: parent as usize,
                token: t as usize,
                log_prob: floor_add(base, row[t]),
            }),
    decreases row.len(),
{
    let c = row_cands(parent, base, row, special, masked);
    let d = row.drop_last();
    let before = row_cands(parent, base, d, special, masked);
    if t == row.len() - 1 {
        assert(c[before.len() as int] == Candidate {
            parent: parent as usize,
            token: t as usize,
            log_prob: floor_add(base, row[t]),
        });
    } else {
        lemma_row_cands_has(parent, base, d, special, masked, t);
        let q = choose|q: int|
            0 <= q < before.len() && #[trigger] before[q] == (Candidate {
                parent: parent as usize,
                token: t as usize,
                log_prob: floor_add(base, d[t]),
            });
        assert(c[q] == before[q]);
    }
}

/// An allowed token of one of the first `k` nodes has its candidate.
pub proof fn lemma_all_cands_has(
    nodes: Seq<NodeView>,
    rows: Seq<Seq<i64>>,
    special: Seq<bool>,
    masked: bool,
    k: int,
    i: int,
    t: int,
)
    requires
        0 <= i < k,
        0 <= t < rows[i].len(),
        allowed(special, masked, t),
    ensures
        exists|q: int|
            0 <= q < all_cands(nodes, rows, special, masked, k).len() && #[trigger] all_cands(
                nodes,
                rows,
                special,
                masked,
                k,
            )[q] == (Candidate {
                parent: i as usize,
                token: t as usize,
                log_prob: floor_add(nodes[i].1, rows[i][t]),
            }),
    decreases k,
{
    let a = all_cands(nodes, rows, special, masked, k - 1);
    let b = row_cands(k - 1, nodes[k - 1].1, rows[k - 1], special, masked);
    let want = Candidate {
        parent: i as usize,
        token: t as usize,
        log_prob: floor_add(nodes[i].1, rows[i][t]),
    };
    let all = all_cands(nodes, rows, special, masked, k);
    assert(all == a + b);
    if i == k - 1 {
        lemma_row_cands_has(k - 1, nodes[k - 1].1, rows[k - 1], special, masked, t);
        let q = choose|q: int| 0 <= q < b.len() && #[trigger] b[q] == want;
        assert(all[a.len() + q] == want);
    } else {
        lemma_all_cands_has(nodes, rows, special, masked, k - 1, i, t);
        let q = choose|q: int| 0 <= q < a.len() && #[trigger] a[q] == want;
        assert(all[q] == want);
    }
}

/// The oracle answers every batch in shape and, for a sequence that is a
/// prefix of `path` no shorter than `m`, gives log-probability 0 to the next
/// token of `path` and a negative one to every other token.
pub open spec fn oracle_follows(
    oracle: spec_fn(Seq<Seq<usize>>) -> Seq<Seq<i64>>,
    path: Seq<usize>,
    m: nat,
    vocab: nat,
) -> bool {
    &&& forall|b: Seq<Seq<usize>>| scores_ok(b.len(), #[trigger] oracle(b), vocab)
    &&& forall|b: Seq<Seq<usize>>, i: int, t: int|
        0 <= i < b.len() && m <= b[i].len() < path.len() && b[i] == path.subrange(
            0,
            b[i].len() as int,
        ) && 0 <= t < vocab ==> (#[trigger] oracle(b)[i][t] == 0 <==> t == path[b[i].len() as int])
}

/// Facts of the search while it runs along `path`.
pub open spec fn on_path(v: SearchView, path: Seq<usize>, m: nat) -> bool {
    &&& v.nodes.len() > 0
    &&& !v.exhausted
    &&& m + v.depth <= path.len()
    &&& v.nodes[0] == (path.subrange(0, (m + v.depth) as int), 0i64)
    &&& forall|i: int|
        0 <= i < v.nodes.len() ==> {
            &&& #[trigger] v.nodes[i].1 <= 0
            &&& v.nodes[i].1 == 0 ==> v.nodes[i].0 == path.subrange(0, (m + v.depth) as int)
        }
}

/// Conditions under which the search, started from `path[..m]`, follows `path`.
pub open spec fn dominant_path(
    path: Seq<usize>,
    m: nat,
    oracle: spec_fn(Seq<Seq<usize>>) -> Seq<Seq<i64>>,
    special: Seq<bool>,
    p: BeamParams,
) -> bool {
    &&& p.width >= 1
    &&& m <= path.len() <= m + p.max_depth
    &&& finished(path, p.end_token)
    &&& forall|l: int| m <= l < path.len() ==> !finished(#[trigger] path.subrange(0, l), p.end_token)
    &&& forall|j: int|
        m <= j < path.len() ==> #[trigger] path[j] < special.len() && allowed(
            special,
            j - m < p.masked_steps,
            path[j] as int,
        )
    &&& oracle_follows(oracle, path, m, special.len())
    &&& special.len() <= usize::MAX
}

proof fn lemma_floor_add_zero(a: i64, b: i64)
    requires
        a <= 0,
        b <= 0,
    ensures
        floor_add(a, b) <= 0,
        floor_add(a, b) == 0 <==> a == 0 && b == 0,
{
}

/// One step along the path keeps the search on it.
proof fn lemma_step_on_path(
    v: SearchView,
    path: Seq<usize>,
    m: nat,
    oracle: spec_fn(Seq<Seq<usize>>) -> Seq<Seq<i64>>,
    special: Seq<bool>,
    p: BeamParams,
)
    requires
        on_path(v, path, m),
        dominant_path(path, m, oracle, special, p),
        m + v.depth < path.len(),
        v.nodes.len() <= usize::MAX,
    ensures
        advance_spec(v, oracle(batch_of(v.nodes)), special, p) matches Some(n) && !n.exhausted
            && on_path(n, path, m) && n.depth == v.depth + 1,
{
    let nodes = v.nodes;
    let batch = batch_of(nodes);
    let rows = oracle(batch);
    let d = v.depth;
    let pre = path.subrange(0, (m + d) as int);
    let masked = d < p.masked_steps;
    let vocab = special.len();
    assert(scores_ok(batch.len(), rows, vocab));
    let all = all_cands(nodes, rows, special, masked, nodes.len() as int);
    let tok = path[(m + d) as int];
    assert(tok < vocab && allowed(special, (m + d) - m < p.masked_steps, tok as int));
    assert(batch[0] == pre);
    assert(rows[0][tok as int] == 0);
    lemma_all_cands_has(nodes, rows, special, masked, nodes.len() as int, 0, tok as int);
    lemma_all_cands_props(nodes, rows, special, masked, nodes.len() as int);
    let want = Candidate { parent: 0usize, token: tok, log_prob: floor_add(nodes[0].1, rows[0][tok as int]) };
    let qw = choose|q: int| 0 <= q < all.len() && #[trigger] all[q] == want;
    // Every candidate is at most 0, and one at 0 extends the path.
    assert forall|q: int| 0 <= q < all.len() implies {
        &&& #[trigger] all[q].log_prob <= 0
        &&& all[q].log_prob == 0 ==> nodes[all[q].parent as int].0 == pre && all[q].token == tok
    } by {
        let c = all[q];
        assert(c.parent < nodes.len());
        let par = c.parent as int;
        assert(nodes[par].1 <= 0);
        assert(rows[par][c.token as int] <= 0);
        lemma_floor_add_zero(nodes[par].1, rows[par][c.token as int]);
        if c.log_prob == 0 {
            assert(batch[par] == nodes[par].0);
            assert(batch[par] == pre);
            assert(pre.len() == m + d);
        }
    }
    lemma_floor_add_zero(0, 0);
    assert(all[qw].log_prob == 0);
    let top = top_k(all, p.width as nat);
    lemma_top_k_from(all, p.width as nat);
    lemma_best_pos_max(cand_scores(all));
    let b = best_pos(cand_scores(all));
    assert(cand_scores(all)[qw] == 0);
    assert(top[0] == all[b]);
    assert(all[b].log_prob == 0);
    let next = step_spec(nodes, rows, special, masked, p.width as nat);
    assert(next.len() == top.len());
    let post = path.subrange(0, (m + d + 1) as int);
    assert(pre.push(tok) =~= post);
    assert(next[0] == extend(nodes, top[0]));
    assert forall|i: int| 0 <= i < next.len() implies {
        &&& #[trigger] next[i].1 <= 0
        &&& next[i].1 == 0 ==> next[i].0 == post
    } by {
        let q = choose|q: int| 0 <= q < all.len() && all[q] == #[trigger] top[i];
        assert(next[i] == extend(nodes, top[i]));
        assert(all[q].log_prob <= 0);
    }
}

/// Runs along the path until it is complete.
proof fn lemma_run_on_path(
    v: SearchView,
    path: Seq<usize>,
    m: nat,
    oracle: spec_fn(Seq<Seq<usize>>) -> Seq<Seq<i64>>,
    special: Seq<bool>,
    p: BeamParams,
)
    requires
        on_path(v, path, m),
        dominant_path(path, m, oracle, special, p),
        v.nodes.len() <= p.width || v.nodes.len() == 1,
    ensures
        best_seq(run_spec(v, oracle, special, p).nodes) == path,
    decreases p.max_depth - v.depth,
{
    let nodes = v.nodes;
    lemma_best_pos_max(node_scores(nodes));
    let b = best_pos(node_scores(nodes));
    assert(node_scores(nodes)[0] == 0);
    assert(nodes[b].1 == 0);
    let pre = path.subrange(0, (m + v.depth) as int);
    assert(best_seq(nodes) == pre);
    if m + v.depth == path.len() {
        assert(pre =~= path);
    } else {
        assert(!finished(pre, p.end_token));
        assert(v.depth < p.max_depth);
        lemma_step_on_path(v, path, m, oracle, special, p);
        let n = advance_spec(v, oracle(batch_of(nodes)), special, p)->0;
        lemma_top_k_from(
            all_cands(nodes, oracle(batch_of(nodes)), special, v.depth < p.masked_steps, nodes.len() as int),
            p.width as nat,
        );
        lemma_run_on_path(n, path, m, oracle, special, p);
    }
}

/// A beam search whose oracle gives all probability, at every prefix of
/// `path` from the initial tokens on, to the next token of `path` (and so
/// makes `path` the unique most likely sequence), returns exactly `path`
/// when `path` ends with the end token, ends nowhere earlier, has at most
/// `max_depth` tokens after the initial ones, and uses no token that the
/// masking excludes where it applies. With `beam_search_with`, whose result
/// is `best_seq(run_spec(..))` for every answer function its oracle follows,
/// this is what the running search returns.
pub proof fn lemma_search_finds_dominant_path(
    initial: Seq<usize>,
    path: Seq<usize>,
    oracle: spec_fn(Seq<Seq<usize>>) -> Seq<Seq<i64>>,
    special: Seq<bool>,
    p: BeamParams,
)
    requires
        initial.len() <= path.len(),
        path.subrange(0, initial.len() as int) == initial,
        dominant_path(path, initial.len(), oracle, special, p),
    ensures
        best_seq(run_spec(initial_view(initial), oracle, special, p).nodes) == path,
{
    let v = initial_view(initial);
    assert(v.nodes[0] == (path.subrange(0, initial.len() as int), 0i64));
    lemma_run_on_path(v, path, initial.len(), oracle, special, p);
}

} // verus!
