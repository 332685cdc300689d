use vstd::arithmetic::div_mod::{lemma_fundamental_div_mod, lemma_mod_bound};
use vstd::prelude::*;

verus! {

/// Distance between the starts of two consecutive windows: the window length
/// less the overlap, and never less than one sample.
pub open spec fn shift_of(window: nat, overlap: nat) -> nat {
    if window > overlap {
        (window - overlap) as nat
    } else {
        1
    }
}

/// Number of windows needed to step over `n` samples, i.e. `ceil(n / shift)`.
pub open spec fn count_of(n: nat, shift: nat) -> nat
    recommends
        shift > 0,
{
    if n == 0 {
        0
    } else {
        ((n - 1) as nat / shift + 1) as nat
    }
}

/// First sample of window `i`.
pub open spec fn start_of(shift: nat, i: nat) -> nat {
    i * shift
}

/// One past the last sample of window `i`: the window is clipped to the buffer.
pub open spec fn end_of(n: nat, window: nat, shift: nat, i: nat) -> nat {
    if i * shift + window < n {
        i * shift + window
    } else {
        n
    }
}

/// The windows that cut a buffer of `n_samples` samples into pieces of at most
/// `window` samples, consecutive pieces sharing `overlap` samples.
pub struct AudioWindows {
    pub n_samples: usize,
    pub window: usize,
    pub shift: usize,
    pub count: usize,
}

impl AudioWindows {
    pub open spec fn wf(&self) -> bool {
        &&& self.shift >= 1
        &&& self.count == count_of(self.n_samples as nat, self.shift as nat)
    }

    pub open spec fn start(&self, i: nat) -> nat {
        start_of(self.shift as nat, i)
    }

    pub open spec fn end(&self, i: nat) -> nat {
        end_of(self.n_samples as nat, self.window as nat, self.shift as nat, i)
    }

    /// Plans the windows over `n_samples` samples.
    pub fn new(n_samples: usize, window: usize, overlap: usize) -> (r: AudioWindows)
        ensures
            r.wf(),
            r.n_samples == n_samples,
            r.window == window,
            r.shift == shift_of(window as nat, overlap as nat),
    {
        let shift: usize = if window > overlap {
            window - overlap
        } else {
            1
        };
        let count: usize = if n_samples == 0 {
            0
        } else {
            (n_samples - 1) / shift + 1
        };
        AudioWindows { n_samples, window, shift, count }
    }

    /// Number of windows.
    pub fn len(&self) -> (r: usize)
        requires
            self.wf(),
        ensures
            r == count_of(self.n_samples as nat, self.shift as nat),
    {
        self.count
    }

    /// The half-open sample range `[start, end)` of window `i`.
    pub fn bounds(&self, i: usize) -> (r: (usize, usize))
        requires
            self.wf(),
            i < self.count,
        ensures
            r.0 == self.start(i as nat),
            r.1 == self.end(i as nat),
            r.0 < r.1 || self.window == 0,
            r.1 <= self.n_samples,
    {
        proof {
            lemma_window_start_in_buffer(self.n_samples as nat, self.shift as nat, i as nat);
        }
        let start: usize = i * self.shift;
        let end: usize = if self.n_samples - start > self.window {
            start + self.window
        } else {
            self.n_samples
        };
        (start, end)
    }
}

/// Every window starts inside the buffer.
pub proof fn lemma_window_start_in_buffer(n: nat, shift: nat, i: nat)
    requires
        shift >= 1,
        i < count_of(n, shift),
    ensures
        i * shift < n,
{
    let m = (n - 1) as int;
    lemma_fundamental_div_mod(m, shift as int);
    lemma_mod_bound(m, shift as int);
    let q = m / shift as int;
    assert(i <= q);
    assert(i * shift <= q * shift) by (nonlinear_arith)
        requires
            i <= q,
            shift >= 1,
    ;
    assert(shift * q == q * shift) by (nonlinear_arith);
}

/// Window holding sample `s` when windows start every `shift` samples.
pub open spec fn window_of(s: nat, shift: nat) -> nat {
    s / shift
}

/// The `c` windows cover `[0, n)` without gaps, in the sense of `lemma_windows_cover`.
pub open spec fn windows_cover(n: nat, window: nat, shift: nat, c: nat) -> bool {
    &&& c * shift >= n
    &&& c == 0 || (c - 1) * shift < n
    &&& c == 0 <==> n == 0
    &&& c > 0 ==> start_of(shift, 0) == 0
    &&& c > 0 ==> end_of(n, window, shift, (c - 1) as nat) == n
    &&& forall|i: nat|
        i + 1 < c ==> #[trigger] start_of(shift, i + 1) <= end_of(n, window, shift, i)
    &&& forall|s: nat|
        s < n ==> {
            &&& #[trigger] window_of(s, shift) < c
            &&& start_of(shift, window_of(s, shift)) <= s
            &&& s < end_of(n, window, shift, window_of(s, shift))
        }
}

/// With a positive window length the windows cover `[0, n)` without gaps: the
/// first starts at 0, each starts no later than its predecessor ends, the last
/// ends exactly at `n`, every sample lies in some window, and there are
/// `ceil(n / shift)` of them.
pub proof fn lemma_windows_cover(n: nat, window: nat, overlap: nat)
    requires
        window > 0,
    ensures
        windows_cover(n, window, shift_of(window, overlap), count_of(n, shift_of(window, overlap))),
{
    let shift = shift_of(window, overlap);
    let c = count_of(n, shift);
    assert(shift <= window);
    if n > 0 {
        let m = (n - 1) as int;
        lemma_fundamental_div_mod(m, shift as int);
        lemma_mod_bound(m, shift as int);
        let q = m / shift as int;
        assert(c == q + 1);
        assert(shift * q == q * shift) by (nonlinear_arith);
        assert(c * shift == q * shift + shift) by (nonlinear_arith)
            requires
                c == q + 1,
        ;
        assert((c - 1) * shift == q * shift);
        assert(end_of(n, window, shift, (c - 1) as nat) == n);
    }
    assert forall|i: nat| i + 1 < c implies #[trigger] start_of(shift, i + 1) <= end_of(
        n,
        window,
        shift,
        i,
    ) by {
        lemma_window_start_in_buffer(n, shift, i + 1);
        assert((i + 1) * shift == i * shift + shift) by (nonlinear_arith);
    }
    assert forall|s: nat| s < n implies {
        &&& #[trigger] window_of(s, shift) < c
        &&& start_of(shift, window_of(s, shift)) <= s
        &&& s < end_of(n, window, shift, window_of(s, shift))
    } by {
        let i = s / shift;
        lemma_fundamental_div_mod(s as int, shift as int);
        lemma_mod_bound(s as int, shift as int);
        assert(shift * i == i * shift) by (nonlinear_arith);
        assert(i * shift <= s);
        assert(s < i * shift + shift);
        let m = (n - 1) as int;
        assert(s <= m);
        assert((s as int) / (shift as int) <= m / (shift as int)) by {
            vstd::arithmetic::div_mod::lemma_div_is_ordered(s as int, m, shift as int);
        }
    }
}

} // verus!
