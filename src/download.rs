use crate::event::Event;
use vstd::prelude::*;

verus! {

/// Whole percent of `len` that `offset` reaches (100 for an empty file).
pub open spec fn progress_pct(offset: nat, len: nat) -> nat {
    if len == 0 {
        100
    } else {
        offset * 100 / len
    }
}

/// Whole percent still to go, `floor(100 - offset * 100 / len)`.
pub open spec fn remaining_pct(offset: nat, len: nat) -> nat {
    if len == 0 || offset >= len {
        0
    } else {
        ((len - offset) as nat * 100 / len) as nat
    }
}

/// Time to completion extrapolated from the mean throughput so far: the time
/// per percent done so far, times the percent still to go (at most
/// `u64::MAX`).
pub open spec fn remaining_time(elapsed: nat, offset: nat, len: nat) -> nat {
    let p = progress_pct(offset, len);
    let unit = elapsed / if p == 0 {
        1
    } else {
        p
    };
    let r = unit * remaining_pct(offset, len);
    if r > u64::MAX {
        u64::MAX as nat
    } else {
        r
    }
}

/// Milliseconds from `start` to `now`, 0 if the clock reads earlier.
pub open spec fn elapsed_between(start: u64, now: u64) -> u64 {
    if now >= start {
        (now - start) as u64
    } else {
        0
    }
}

/// A required file is taken from the local cache, with no events, when it is
/// there and a fresh download is not forced; otherwise it is fetched.
pub fn use_cached(force_download: bool, in_cache: bool) -> (r: bool)
    ensures
        r == (!force_download && in_cache),
{
    !force_download && in_cache
}

/// The state of one file being downloaded.
pub struct DownloadState {
    pub start_ms: u64,
    pub len: usize,
    pub offset: usize,
    pub url: String,
}

impl DownloadState {
    pub open spec fn wf(&self) -> bool {
        self.offset <= self.len
    }

    /// A download of `len` bytes of `url` that starts at `now_ms`.
    pub fn new(len: usize, url: &str, now_ms: u64) -> (r: DownloadState)
        ensures
            r.wf(),
            r.len == len,
            r.offset == 0,
            r.url@ == url@,
            r.start_ms == now_ms,
    {
        DownloadState { start_ms: now_ms, len, offset: 0, url: url.to_owned() }
    }

    /// The state after `delta` more bytes, never past the file's length.
    pub open spec fn advanced(self, delta: usize) -> DownloadState {
        DownloadState {
            offset: if self.offset + delta > self.len {
                self.len
            } else {
                (self.offset + delta) as usize
            },
            ..self
        }
    }

    /// The progress report of this state at `now_ms`.
    pub open spec fn report(self, now_ms: u64) -> Event {
        Event::DownloadProgress {
            file: self.url,
            offset: self.offset,
            len: self.len,
            percentage: progress_pct(self.offset as nat, self.len as nat) as u32,
            elapsed_ms: elapsed_between(self.start_ms, now_ms),
            remaining_ms: remaining_time(
                elapsed_between(self.start_ms, now_ms) as nat,
                self.offset as nat,
                self.len as nat,
            ) as u64,
        }
    }

    /// Records `delta` more bytes at `now_ms` (never past the file's length)
    /// and reports the progress; nothing is reported for no progress.
    pub fn update(&mut self, delta: usize, now_ms: u64) -> (r: Option<Event>)
        requires
            old(self).wf(),
        ensures
            final(self).wf(),
            final(self).len == old(self).len,
            final(self).url == old(self).url,
            final(self).start_ms == old(self).start_ms,
            delta == 0 ==> r is None && final(self).offset == old(self).offset,
            delta > 0 ==> *final(self) == old(self).advanced(delta) && r == Some(
                final(self).report(now_ms),
            ),
            delta > 0 ==> {
                &&& final(self).offset == if old(self).offset + delta > old(self).len {
                    old(self).len as int
                } else {
                    old(self).offset + delta
                }
                &&& r == Some(
                    Event::DownloadProgress {
                        file: old(self).url,
                        offset: final(self).offset,
                        len: old(self).len,
                        percentage: progress_pct(final(self).offset as nat, old(self).len as nat)
                            as u32,
                        elapsed_ms: elapsed_between(old(self).start_ms, now_ms),
                        remaining_ms: remaining_time(
                            elapsed_between(old(self).start_ms, now_ms) as nat,
                            final(self).offset as nat,
                            old(self).len as nat,
                        ) as u64,
                    },
                )
            },
    {
        if delta == 0 {
            return None;
        }
        if self.len - self.offset < delta {
            self.offset = self.len;
        } else {
            self.offset = self.offset + delta;
        }
        let elapsed: u64 = if now_ms >= self.start_ms {
            now_ms - self.start_ms
        } else {
            0
        };
        let offset = self.offset;
        let len = self.len;
        let pct: u32 = if len == 0 {
            100
        } else {
            assert(offset as nat * 100 / len as nat <= 100) by (nonlinear_arith)
                requires
                    offset <= len,
                    len > 0,
            ;
            ((offset as u128 * 100) / len as u128) as u32
        };
        let rem: u128 = if len == 0 || offset >= len {
            0
        } else {
            assert((len - offset) as nat * 100 / len as nat <= 100) by (nonlinear_arith)
                requires
                    offset < len,
                    len > 0,
            ;
            ((len - offset) as u128 * 100) / len as u128
        };
        let unit: u64 = elapsed / if pct == 0 {
            1
        } else {
            pct as u64
        };
        assert(unit as nat * rem as nat <= u64::MAX as nat * 100) by (nonlinear_arith)
            requires
                unit <= u64::MAX,
                rem <= 100,
        ;
        let product: u128 = unit as u128 * rem;
        let remaining: u64 = if product > u64::MAX as u128 {
            u64::MAX
        } else {
            product as u64
        };
        Some(
            Event::DownloadProgress {
                file: self.url.clone(),
                offset,
                len,
                percentage: pct,
                elapsed_ms: elapsed,
                remaining_ms: remaining,
            },
        )
    }
}

/// Where a sequence of download events stands: broken, between files, or in
/// the middle of a file with the last percentage reported.
pub enum LogState {
    Invalid,
    Idle,
    Active(Seq<char>, nat),
}

/// The download events of a run come file by file: `DownloadStarted`, then
/// progress of that same file that never goes back and stays within 100, then
/// `DownloadCompleted` of that file.
pub open spec fn next_log_state(s: LogState, e: Event) -> LogState {
    match s {
        LogState::Invalid => LogState::Invalid,
        LogState::Idle => match e {
            Event::DownloadStarted { file } => LogState::Active(file@, 0),
            _ => LogState::Invalid,
        },
        LogState::Active(f, p) => match e {
            Event::DownloadProgress { file, percentage, .. } => if file@ == f && p <= percentage
                && percentage <= 100 {
                LogState::Active(f, percentage as nat)
            } else {
                LogState::Invalid
            },
            Event::DownloadCompleted { file } => if file@ == f {
                LogState::Idle
            } else {
                LogState::Invalid
            },
            _ => LogState::Invalid,
        },
    }
}

pub open spec fn log_state(log: Seq<Event>) -> LogState
    decreases log.len(),
{
    if log.len() == 0 {
        LogState::Idle
    } else {
        next_log_state(log_state(log.drop_last()), log.last())
    }
}

/// Turns the callbacks of a downloading client into download events, one file
/// at a time, and keeps the record of what it reported.
pub struct DownloadTracker {
    pub state: Option<DownloadState>,
    pub log: Ghost<Seq<Event>>,
}

impl DownloadTracker {
    /// Every report so far forms a well-ordered download log, which matches
    /// the file in progress.
    pub open spec fn wf(&self) -> bool {
        match self.state {
            None => log_state(self.log@) == LogState::Idle,
            Some(s) => s.wf() && match log_state(self.log@) {
                LogState::Active(f, p) => f == s.url@ && p <= progress_pct(
                    s.offset as nat,
                    s.len as nat,
                ),
                _ => false,
            },
        }
    }

    pub open spec fn logged(&self, before: Seq<Event>, r: Option<Event>) -> bool {
        self.log@ == match r {
            Some(e) => before.push(e),
            None => before,
        }
    }

    pub fn new() -> (r: DownloadTracker)
        ensures
            r.wf(),
            r.state is None,
            r.log@ == Seq::<Event>::empty(),
    {
        DownloadTracker { state: None, log: Ghost(Seq::empty()) }
    }

    /// A file of `len` bytes starts at `now_ms`. Ignored while another file is
    /// in progress.
    pub fn init(&mut self, len: usize, file: &str, now_ms: u64) -> (r: Option<Event>)
        requires
            old(self).wf(),
        ensures
            final(self).wf(),
            final(self).logged(old(self).log@, r),
            old(self).state is Some ==> r is None && final(self).state == old(self).state,
            old(self).state is None ==> (r matches Some(Event::DownloadStarted { file: f })
                && f@ == file@),
            old(self).state is None ==> (final(self).state matches Some(s) && s.len == len
                && s.offset == 0 && s.url@ == file@),
    {
        if self.state.is_some() {
            return None;
        }
        let s = DownloadState::new(len, file, now_ms);
        let e = Event::DownloadStarted { file: file.to_owned() };
        proof {
            let log = self.log@.push(e);
            assert(log.drop_last() =~= self.log@);
            self.log = Ghost(log);
        }
        self.state = Some(s);
        Some(e)
    }

    /// `delta` more bytes arrived at `now_ms`.
    pub fn update(&mut self, delta: usize, now_ms: u64) -> (r: Option<Event>)
        requires
            old(self).wf(),
        ensures
            final(self).wf(),
            final(self).logged(old(self).log@, r),
            old(self).state is None || delta == 0 ==> r is None,
            delta == 0 ==> final(self).state == old(self).state,
            old(self).state is Some && delta > 0 ==> final(self).state == Some(
                old(self).state->0.advanced(delta),
            ) && r == Some(old(self).state->0.advanced(delta).report(now_ms)),
            old(self).state is Some && delta > 0 ==> (r matches Some(
                Event::DownloadProgress { .. },
            )),
    {
        match self.state.take() {
            None => None,
            Some(mut s) => {
                let ghost old_s = s;
                let r = s.update(delta, now_ms);
                proof {
                    if delta > 0 {
                        let e = r->0;
                        let log = self.log@.push(e);
                        assert(log.drop_last() =~= self.log@);
                        let old_pct = progress_pct(old_s.offset as nat, old_s.len as nat);
                        let new_pct = progress_pct(s.offset as nat, s.len as nat);
                        if s.len > 0 {
                            assert(old_pct <= new_pct) by (nonlinear_arith)
                                requires
                                    old_pct == old_s.offset as nat * 100 / old_s.len as nat,
                                    new_pct == s.offset as nat * 100 / s.len as nat,
                                    old_s.len == s.len,
                                    old_s.offset <= s.offset,
                                    s.len > 0,
                            ;
                            assert(new_pct <= 100) by (nonlinear_arith)
                                requires
                                    new_pct == s.offset as nat * 100 / s.len as nat,
                                    s.offset <= s.len,
                                    s.len > 0,
                            ;
                        }
                        self.log = Ghost(log);
                    }
                }
                self.state = Some(s);
                r
            },
        }
    }

    /// The file in progress is complete.
    pub fn finish(&mut self) -> (r: Option<Event>)
        requires
            old(self).wf(),
        ensures
            final(self).wf(),
            final(self).logged(old(self).log@, r),
            final(self).state is None,
            old(self).state is None ==> r is None,
            old(self).state matches Some(s) ==> (r matches Some(
                Event::DownloadCompleted { file },
            ) && file == s.url),
    {
        match self.state.take() {
            None => None,
            Some(s) => {
                let e = Event::DownloadCompleted { file: s.url };
                proof {
                    let log = self.log@.push(e);
                    assert(log.drop_last() =~= self.log@);
                    self.log = Ghost(log);
                }
                Some(e)
            },
        }
    }
}

/// What the last event of a log says about its state.
proof fn lemma_state_last(log: Seq<Event>)
    requires
        log.len() > 0,
        !(log_state(log) is Invalid),
    ensures
        log_state(log) is Idle ==> log.last() is DownloadCompleted,
        log_state(log) matches LogState::Active(f, p) ==> (log.last() matches Event::DownloadStarted {
            file,
        } && file@ == f && p == 0) || (log.last() matches Event::DownloadProgress {
            file,
            percentage,
            ..
        } && file@ == f && percentage == p),
{
}

/// A valid log stays valid when cut short.
proof fn lemma_prefix_valid(log: Seq<Event>, n: int)
    requires
        0 <= n <= log.len(),
        !(log_state(log) is Invalid),
    ensures
        !(log_state(log.subrange(0, n)) is Invalid),
    decreases log.len() - n,
{
    if n < log.len() {
        let longer = log.subrange(0, n + 1);
        lemma_prefix_valid(log, n + 1);
        assert(longer.drop_last() =~= log.subrange(0, n));
    } else {
        assert(log.subrange(0, n) =~= log);
    }
}

/// The download events of a run, told event by event: the first is a start;
/// a start comes only after a completion; each progress report follows the
/// start or a progress report of the same file, never lower and never above
/// 100; each completion follows the start or a progress report of the same
/// file. So every `DownloadCompleted` has exactly one `DownloadStarted` of
/// the same file before it, and the events of two files never interleave.
pub proof fn lemma_download_log_shape(log: Seq<Event>)
    requires
        !(log_state(log) is Invalid),
    ensures
        log.len() > 0 ==> log[0] is DownloadStarted,
        forall|k: int| 0 < k < log.len() && (#[trigger] log[k]) is DownloadStarted ==> log[k
            - 1] is DownloadCompleted,
        forall|k: int|
            0 < k < log.len() ==> match #[trigger] log[k] {
                Event::DownloadProgress { file, percentage, .. } => percentage <= 100 && ((log[k
                    - 1] matches Event::DownloadStarted { file: g } && g@ == file@) || (log[k
                    - 1] matches Event::DownloadProgress { file: g, percentage: q, .. } && g@
                    == file@ && q <= percentage)),
                Event::DownloadCompleted { file } => (log[k - 1] matches Event::DownloadStarted {
                    file: g,
                } && g@ == file@) || (log[k - 1] matches Event::DownloadProgress { file: g, .. }
                    && g@ == file@),
                _ => true,
            },
        forall|k: int| 0 <= k < log.len() ==> !((#[trigger] log[k]) is Segment),
{
    assert forall|k: int| 0 <= k < log.len() implies {
        &&& (k == 0 ==> log[k] is DownloadStarted)
        &&& (k > 0 && log[k] is DownloadStarted ==> log[k - 1] is DownloadCompleted)
        &&& (k > 0 ==> match #[trigger] log[k] {
            Event::DownloadProgress { file, percentage, .. } => percentage <= 100 && ((log[k
                - 1] matches Event::DownloadStarted { file: g } && g@ == file@) || (log[k
                - 1] matches Event::DownloadProgress { file: g, percentage: q, .. } && g@ == file@
                && q <= percentage)),
            Event::DownloadCompleted { file } => (log[k - 1] matches Event::DownloadStarted {
                file: g,
            } && g@ == file@) || (log[k - 1] matches Event::DownloadProgress { file: g, .. } && g@
                == file@),
            _ => true,
        })
        &&& !(log[k] is Segment)
    } by {
        lemma_prefix_valid(log, k + 1);
        let upto = log.subrange(0, k + 1);
        let before = log.subrange(0, k);
        assert(upto.drop_last() =~= before);
        assert(upto.last() == log[k]);
        if k > 0 {
            lemma_prefix_valid(log, k);
            lemma_state_last(before);
            assert(before.last() == log[k - 1]);
        } else {
            assert(before.len() == 0);
        }
    }
}

} // verus!
