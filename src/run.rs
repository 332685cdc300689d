use crate::download::{log_state, DownloadTracker};
use crate::event::{Error, Event};
use vstd::prelude::*;

verus! {

/// Phases of a run: the model's files are acquired, then the audio is
/// decoded, until the run is done or has failed.
#[derive(Clone, Copy, Debug, PartialEq, Eq, Structural)]
pub enum Phase {
    Acquiring,
    Decoding,
    Done,
    Failed,
}

/// Where the output of a run stands: broken, still in its download events,
/// in its segments with the last window number sent, or ended by a failure.
pub enum OutputState {
    Broken,
    Downloading,
    Segments(nat),
    Failed,
}

/// A run's output is its download events, then its segments in increasing
/// window order, and at most one failure, which ends it.
pub open spec fn next_output_state(s: OutputState, item: Result<Event, Error>) -> OutputState {
    match s {
        OutputState::Broken => OutputState::Broken,
        OutputState::Downloading => match item {
            Ok(Event::Segment { windows_done, .. }) => OutputState::Segments(windows_done as nat),
            Ok(_) => OutputState::Downloading,
            Err(_) => OutputState::Failed,
        },
        OutputState::Segments(last) => match item {
            Ok(Event::Segment { windows_done, .. }) => if windows_done > last {
                OutputState::Segments(windows_done as nat)
            } else {
                OutputState::Broken
            },
            Ok(_) => OutputState::Broken,
            Err(_) => OutputState::Failed,
        },
        OutputState::Failed => OutputState::Broken,
    }
}

pub open spec fn output_state(out: Seq<Result<Event, Error>>) -> OutputState
    decreases out.len(),
{
    if out.len() == 0 {
        OutputState::Downloading
    } else {
        next_output_state(output_state(out.drop_last()), out.last())
    }
}

/// The download events of an output, in order.
pub open spec fn download_events(out: Seq<Result<Event, Error>>) -> Seq<Event>
    decreases out.len(),
{
    if out.len() == 0 {
        seq![]
    } else {
        let before = download_events(out.drop_last());
        match out.last() {
            Ok(e) => if e is Segment {
                before
            } else {
                before.push(e)
            },
            Err(_) => before,
        }
    }
}

pub open spec fn is_segment_item(item: Result<Event, Error>) -> bool {
    item matches Ok(e) && e is Segment
}

pub open spec fn is_download_item(item: Result<Event, Error>) -> bool {
    item matches Ok(e) && !(e is Segment)
}

/// The single ordered output of one transcription run. Every event and the
/// failure, if any, pass through it, and it lets through only what keeps the
/// output well ordered.
pub struct Run {
    pub phase: Phase,
    pub tracker: DownloadTracker,
    pub last_window: usize,
    pub sent: Ghost<Seq<Result<Event, Error>>>,
}

impl Run {
    pub open spec fn wf(&self) -> bool {
        &&& self.tracker.wf()
        &&& self.tracker.log@ == download_events(self.sent@)
        &&& match output_state(self.sent@) {
            OutputState::Broken => false,
            OutputState::Downloading => self.phase != Phase::Failed && self.last_window == 0,
            OutputState::Segments(last) => (self.phase == Phase::Decoding || self.phase
                == Phase::Done) && last == self.last_window,
            OutputState::Failed => self.phase == Phase::Failed,
        }
    }

    /// A run that starts by acquiring the model's files.
    pub fn new() -> (r: Run)
        ensures
            r.wf(),
            r.phase == Phase::Acquiring,
            r.sent@ == Seq::<Result<Event, Error>>::empty(),
    {
        Run { phase: Phase::Acquiring, tracker: DownloadTracker::new(), last_window: 0, sent: Ghost(Seq::empty()) }
    }

    /// A file of `len` bytes starts to download; passed on while acquiring.
    pub fn download_started(&mut self, len: usize, file: &str, now_ms: u64) -> (r: Option<Event>)
        requires
            old(self).wf(),
        ensures
            final(self).wf(),
            final(self).phase == old(self).phase,
            r matches Some(e) ==> final(self).sent@ == old(self).sent@.push(Ok(e)),
            r is None ==> final(self).sent@ == old(self).sent@,
            old(self).phase != Phase::Acquiring ==> r is None,
            old(self).phase == Phase::Acquiring && old(self).tracker.state is Some ==> r is None,
            old(self).phase == Phase::Acquiring && old(self).tracker.state is None ==> (r matches Some(
                Event::DownloadStarted { file: f },
            ) && f@ == file@),
    {
        if self.phase != Phase::Acquiring {
            return None;
        }
        let r = self.tracker.init(len, file, now_ms);
        self.note_download(&r);
        r
    }

    /// `delta` more bytes arrived; passed on while acquiring.
    pub fn download_progress(&mut self, delta: usize, now_ms: u64) -> (r: Option<Event>)
        requires
            old(self).wf(),
        ensures
            final(self).wf(),
            final(self).phase == old(self).phase,
            r matches Some(e) ==> final(self).sent@ == old(self).sent@.push(Ok(e)),
            r is None ==> final(self).sent@ == old(self).sent@,
            old(self).phase != Phase::Acquiring || old(self).tracker.state is None || delta == 0
                ==> r is None,
            old(self).phase == Phase::Acquiring && delta > 0 ==> match old(self).tracker.state {
                Some(s) => r == Some(s.advanced(delta).report(now_ms)),
                None => true,
            },
    {
        if self.phase != Phase::Acquiring {
            return None;
        }
        let r = self.tracker.update(delta, now_ms);
        self.note_download(&r);
        r
    }

    /// The file in progress is on disk; passed on while acquiring.
    pub fn download_completed(&mut self) -> (r: Option<Event>)
        requires
            old(self).wf(),
        ensures
            final(self).wf(),
            final(self).phase == old(self).phase,
            r matches Some(e) ==> final(self).sent@ == old(self).sent@.push(Ok(e)),
            r is None ==> final(self).sent@ == old(self).sent@,
            old(self).phase != Phase::Acquiring || old(self).tracker.state is None ==> r is None,
            old(self).phase == Phase::Acquiring && old(self).tracker.state is Some ==> (r matches Some(
                Event::DownloadCompleted { file },
            ) && file == old(self).tracker.state->0.url),
    {
        if self.phase != Phase::Acquiring {
            return None;
        }
        let r = self.tracker.finish();
        self.note_download(&r);
        r
    }

    /// Records in `sent` the download event that the tracker just logged.
    fn note_download(&mut self, r: &Option<Event>)
        requires
            old(self).phase == Phase::Acquiring,
            output_state(old(self).sent@) == OutputState::Downloading,
            old(self).last_window == 0,
            old(self).tracker.wf(),
            old(self).tracker.log@ == match *r {
                Some(e) => download_events(old(self).sent@).push(e),
                None => download_events(old(self).sent@),
            },
            *r matches Some(e) ==> !(e is Segment),
        ensures
            final(self).wf(),
            final(self).phase == old(self).phase,
            final(self).tracker == old(self).tracker,
            *r matches Some(e) ==> final(self).sent@ == old(self).sent@.push(Ok(e)),
            *r is None ==> final(self).sent@ == old(self).sent@,
    {
        proof {
            if let Some(e) = r {
                let out = self.sent@.push(Ok(*e));
                assert(out.drop_last() =~= self.sent@);
                self.sent = Ghost(out);
            }
        }
    }

    /// Every download event has been passed on: decoding may start.
    pub fn downloads_closed(&mut self)
        requires
            old(self).wf(),
        ensures
            final(self).wf(),
            final(self).sent@ == old(self).sent@,
            old(self).phase == Phase::Acquiring ==> final(self).phase == Phase::Decoding,
            old(self).phase != Phase::Acquiring ==> final(self).phase == old(self).phase,
    {
        if self.phase == Phase::Acquiring {
            self.phase = Phase::Decoding;
        }
    }

    /// A segment, passed on while decoding if its window comes after the last
    /// one sent.
    pub fn segment(&mut self, e: Event) -> (r: Option<Event>)
        requires
            old(self).wf(),
        ensures
            final(self).wf(),
            final(self).phase == old(self).phase,
            r matches Some(x) ==> x == e && final(self).sent@ == old(self).sent@.push(Ok(e)),
            r is None ==> final(self).sent@ == old(self).sent@,
            old(self).phase == Phase::Decoding ==> ((e matches Event::Segment { windows_done, .. }
                && windows_done > old(self).last_window) ==> r is Some),
    {
        if self.phase != Phase::Decoding {
            return None;
        }
        let w = match &e {
            Event::Segment { windows_done, .. } => *windows_done,
            _ => {
                return None;
            },
        };
        if w <= self.last_window {
            return None;
        }
        proof {
            let out = self.sent@.push(Ok(e));
            assert(out.drop_last() =~= self.sent@);
            self.sent = Ghost(out);
        }
        self.last_window = w;
        Some(e)
    }

    /// The run fails: the first failure is passed on and ends the run.
    pub fn fail(&mut self, err: Error) -> (r: Option<Error>)
        requires
            old(self).wf(),
        ensures
            final(self).wf(),
            old(self).phase == Phase::Failed || old(self).phase == Phase::Done ==> r is None
                && final(self).sent@ == old(self).sent@ && final(self).phase == old(self).phase,
            old(self).phase != Phase::Failed && old(self).phase != Phase::Done ==> r == Some(err)
                && final(self).sent@ == old(self).sent@.push(Err(err)) && final(self).phase
                == Phase::Failed,
    {
        if self.phase == Phase::Failed || self.phase == Phase::Done {
            return None;
        }
        proof {
            let out = self.sent@.push(Err(err));
            assert(out.drop_last() =~= self.sent@);
            self.sent = Ghost(out);
        }
        self.phase = Phase::Failed;
        Some(err)
    }

    /// Decoding is over.
    pub fn finish(&mut self)
        requires
            old(self).wf(),
        ensures
            final(self).wf(),
            final(self).sent@ == old(self).sent@,
            old(self).phase == Phase::Decoding ==> final(self).phase == Phase::Done,
            old(self).phase != Phase::Decoding ==> final(self).phase == old(self).phase,
    {
        if self.phase == Phase::Decoding {
            self.phase = Phase::Done;
        }
    }
}

/// While the output is in its download events it holds nothing else.
pub proof fn lemma_downloading_only(out: Seq<Result<Event, Error>>)
    requires
        output_state(out) == OutputState::Downloading,
    ensures
        forall|i: int| 0 <= i < out.len() ==> is_download_item(#[trigger] out[i]),
    decreases out.len(),
{
    if out.len() > 0 {
        let prefix = out.drop_last();
        match output_state(prefix) {
            OutputState::Downloading => {
                lemma_downloading_only(prefix);
                assert forall|i: int| 0 <= i < out.len() implies is_download_item(
                    #[trigger] out[i],
                ) by {
                    if i < prefix.len() {
                        assert(out[i] == prefix[i]);
                    }
                }
            },
            _ => {},
        }
    }
}

/// No segment is ever sent before a download event of the same run: in any
/// output the run lets through, every download event comes before every
/// segment, and nothing follows a failure.
pub proof fn lemma_segments_after_downloads(out: Seq<Result<Event, Error>>)
    requires
        !(output_state(out) is Broken),
    ensures
        forall|i: int, j: int|
            0 <= i < j < out.len() && is_segment_item(#[trigger] out[i]) ==> !is_download_item(
                #[trigger] out[j],
            ),
        forall|i: int| 0 <= i < out.len() - 1 ==> !((#[trigger] out[i]) is Err),
    decreases out.len(),
{
    if out.len() > 0 {
        let prefix = out.drop_last();
        assert(!(output_state(prefix) is Broken));
        lemma_segments_after_downloads(prefix);
        if is_download_item(out.last()) {
            assert(output_state(prefix) == OutputState::Downloading);
            lemma_downloading_only(prefix);
        }
        if output_state(prefix) != OutputState::Failed {
            assert forall|i: int| 0 <= i < prefix.len() implies !((#[trigger] prefix[i]) is Err) by {
                if i == prefix.len() - 1 {
                    assert(prefix.drop_last() =~= prefix.subrange(0, prefix.len() - 1));
                    lemma_no_err_unless_failed(prefix);
                }
            }
        }
        assert forall|i: int, j: int|
            0 <= i < j < out.len() && is_segment_item(#[trigger] out[i]) implies !is_download_item(
            #[trigger] out[j],
        ) by {
            if j < prefix.len() {
                assert(out[i] == prefix[i]);
                assert(out[j] == prefix[j]);
            } else {
                assert(out[i] == prefix[i]);
            }
        }
        assert forall|i: int| 0 <= i < out.len() - 1 implies !((#[trigger] out[i]) is Err) by {
            assert(out[i] == prefix[i]);
        }
    }
}

/// An output that has not failed holds no failure.
pub proof fn lemma_no_err_unless_failed(out: Seq<Result<Event, Error>>)
    requires
        !(output_state(out) is Broken),
        !(output_state(out) is Failed),
    ensures
        forall|i: int| 0 <= i < out.len() ==> !((#[trigger] out[i]) is Err),
    decreases out.len(),
{
    if out.len() > 0 {
        let prefix = out.drop_last();
        lemma_no_err_unless_failed(prefix);
        assert forall|i: int| 0 <= i < out.len() implies !((#[trigger] out[i]) is Err) by {
            if i < prefix.len() {
                assert(out[i] == prefix[i]);
            }
        }
    }
}

/// The download events that a run lets through form a well-ordered download
/// log: file by file, each started once, its progress never going back and
/// within 100, then completed.
pub proof fn lemma_run_downloads_well_ordered(run: Run)
    requires
        run.wf(),
    ensures
        !(log_state(download_events(run.sent@)) is Invalid),
{
}

} // verus!
