//! Speech segmentation: when a recording segment starts, continues and ends,
//! given a speech verdict for each chunk and the time the chunk was taken.
//!
//! Times are nanoseconds since a fixed reference instant of the capture session.
use vstd::prelude::*;

verus! {

/// Nanoseconds in a millisecond.
pub const NANOS_PER_MILLI: u64 = 1_000_000;

/// Time from `last` to `now`, or zero when `last` is later (a monotonic clock's
/// saturating difference).
pub open spec fn elapsed(now: u64, last: u64) -> nat {
    if now >= last {
        (now - last) as nat
    } else {
        0
    }
}

/// Whether speech was heard less than `timeout_ns` ago.
pub open spec fn within_timeout(last: Option<u64>, now: u64, timeout_ns: u64) -> bool {
    match last {
        Some(l) => elapsed(now, l) < timeout_ns,
        None => false,
    }
}

/// The last time speech was heard, after a chunk taken at `now`.
pub open spec fn next_last_speech(last: Option<u64>, is_speech: bool, now: u64) -> Option<u64> {
    if is_speech {
        Some(now)
    } else {
        last
    }
}

/// Decides whether audio should be kept: speech heard within the silence timeout.
#[derive(Clone, Copy, Debug, PartialEq, Eq, Structural)]
pub struct SpeechGate {
    /// When speech was last heard.
    pub last_speech_ns: Option<u64>,
    /// How long silence may last before a segment ends.
    pub silence_timeout_ns: u64,
}

impl SpeechGate {
    /// A gate that has heard no speech, with a silence timeout given in milliseconds.
    pub fn new(silence_timeout_ms: u32) -> (r: Self)
        ensures
            r.last_speech_ns is None,
            r.silence_timeout_ns == silence_timeout_ms * NANOS_PER_MILLI,
    {
        SpeechGate {
            last_speech_ns: None,
            silence_timeout_ns: silence_timeout_ms as u64 * NANOS_PER_MILLI,
        }
    }

    /// Takes the verdict for a chunk taken at `now_ns` and says whether audio should be kept.
    pub fn observe(&mut self, is_speech: bool, now_ns: u64) -> (should_record: bool)
        ensures
            final(self).silence_timeout_ns == old(self).silence_timeout_ns,
            final(self).last_speech_ns == next_last_speech(
                old(self).last_speech_ns,
                is_speech,
                now_ns,
            ),
            should_record == within_timeout(
                final(self).last_speech_ns,
                now_ns,
                final(self).silence_timeout_ns,
            ),
        no_unwind
    {
        if is_speech {
            self.last_speech_ns = Some(now_ns);
        }
        match self.last_speech_ns {
            Some(last) => {
                let since: u64 = if now_ns >= last {
                    now_ns - last
                } else {
                    0
                };
                since < self.silence_timeout_ns
            },
            None => false,
        }
    }
}

/// The state of the segmenting recorder, as a value.
pub struct SegmentModel {
    pub last_speech_ns: Option<u64>,
    pub silence_timeout_ns: u64,
    pub is_speaking: bool,
    pub segment_count: u32,
    pub writer_open: bool,
}

/// What a chunk did to the segmentation.
#[derive(Clone, Copy, Debug, PartialEq, Eq, Structural)]
pub enum SegmentEvent {
    /// A new segment began; `segment` is its number, counting from 1. Its file is to be opened.
    Started { segment: u32 },
    /// The segment ended; its file is to be finalized and delivered when `finalize` is set.
    Ended { finalize: bool },
    /// Nothing changed.
    Continued,
}

/// Whether the chunk starts a segment.
pub open spec fn starts_segment(s: SegmentModel, is_speech: bool, now: u64) -> bool {
    within_timeout(next_last_speech(s.last_speech_ns, is_speech, now), now, s.silence_timeout_ns)
        && !s.is_speaking
}

/// One chunk of segmentation: the next state and what happened.
pub open spec fn segment_step(s: SegmentModel, is_speech: bool, now: u64) -> (
    SegmentModel,
    SegmentEvent,
) {
    let last = next_last_speech(s.last_speech_ns, is_speech, now);
    let record = within_timeout(last, now, s.silence_timeout_ns);
    if record && !s.is_speaking {
        (
            SegmentModel {
                last_speech_ns: last,
                is_speaking: true,
                segment_count: (s.segment_count + 1) as u32,
                ..s
            },
            SegmentEvent::Started { segment: (s.segment_count + 1) as u32 },
        )
    } else if !record && s.is_speaking {
        (
            SegmentModel { last_speech_ns: last, is_speaking: false, writer_open: false, ..s },
            SegmentEvent::Ended { finalize: s.writer_open },
        )
    } else {
        (SegmentModel { last_speech_ns: last, ..s }, SegmentEvent::Continued)
    }
}

/// Splits a capture into speech segments: a segment starts when speech is heard and
/// ends once the silence timeout has passed without speech. Each segment gets its
/// own number and file.
pub struct SegmentTracker {
    gate: SpeechGate,
    is_speaking: bool,
    segment_count: u32,
    writer_open: bool,
}

impl View for SegmentTracker {
    type V = SegmentModel;

    closed spec fn view(&self) -> SegmentModel {
        SegmentModel {
            last_speech_ns: self.gate.last_speech_ns,
            silence_timeout_ns: self.gate.silence_timeout_ns,
            is_speaking: self.is_speaking,
            segment_count: self.segment_count,
            writer_open: self.writer_open,
        }
    }
}

impl SegmentTracker {
    /// A segment file is open only while a segment runs.
    #[verifier::type_invariant]
    spec fn inv(self) -> bool {
        self.writer_open ==> self.is_speaking
    }

    /// A tracker that has heard nothing and counted no segment.
    pub fn new(silence_timeout_ms: u32) -> (r: Self)
        ensures
            r@ == (SegmentModel {
                last_speech_ns: None,
                silence_timeout_ns: (silence_timeout_ms * NANOS_PER_MILLI) as u64,
                is_speaking: false,
                segment_count: 0,
                writer_open: false,
            }),
    {
        SegmentTracker {
            gate: SpeechGate::new(silence_timeout_ms),
            is_speaking: false,
            segment_count: 0,
            writer_open: false,
        }
    }

    /// Whether a segment is running.
    pub fn is_speaking(&self) -> (r: bool)
        ensures
            r == self@.is_speaking,
    {
        self.is_speaking
    }

    /// How many segments have started.
    pub fn segment_count(&self) -> (r: u32)
        ensures
            r == self@.segment_count,
    {
        self.segment_count
    }

    /// Whether the chunk would start a segment.
    pub fn would_start_segment(&self, is_speech: bool, now_ns: u64) -> (r: bool)
        ensures
            r == starts_segment(self@, is_speech, now_ns),
    {
        let mut gate = self.gate;
        let record = gate.observe(is_speech, now_ns);
        record && !self.is_speaking
    }

    /// Takes the speech verdict for a chunk taken at `now_ns`.
    pub fn observe_chunk(&mut self, is_speech: bool, now_ns: u64) -> (event: SegmentEvent)
        requires
            starts_segment(old(self)@, is_speech, now_ns) ==> old(self)@.segment_count < u32::MAX,
        ensures
            (final(self)@, event) == segment_step(old(self)@, is_speech, now_ns),
    {
        proof {
            use_type_invariant(&*self);
        }
        let record = self.gate.observe(is_speech, now_ns);
        if record && !self.is_speaking {
            self.is_speaking = true;
            self.segment_count = self.segment_count + 1;
            SegmentEvent::Started { segment: self.segment_count }
        } else if !record && self.is_speaking {
            let finalize = self.writer_open;
            self.writer_open = false;
            self.is_speaking = false;
            SegmentEvent::Ended { finalize }
        } else {
            SegmentEvent::Continued
        }
    }

    /// Records whether the file of the segment just started could be opened.
    pub fn segment_file_opened(&mut self, opened: bool)
        requires
            old(self)@.is_speaking,
        ensures
            final(self)@ == (SegmentModel { writer_open: opened, ..old(self)@ }),
    {
        self.writer_open = opened;
    }

    /// Whether the current chunk goes into the segment file.
    pub fn should_write(&self) -> (r: bool)
        ensures
            r == (self@.is_speaking && self@.writer_open),
            r == self@.writer_open,
    {
        proof {
            use_type_invariant(self);
        }
        self.is_speaking && self.writer_open
    }
}

/// After every chunk a segment runs exactly when speech was heard within the timeout.
pub proof fn lemma_speaking_follows_gate(s: SegmentModel, is_speech: bool, now: u64)
    ensures
        segment_step(s, is_speech, now).0.is_speaking == within_timeout(
            next_last_speech(s.last_speech_ns, is_speech, now),
            now,
            s.silence_timeout_ns,
        ),
        segment_step(s, is_speech, now).0.last_speech_ns == next_last_speech(
            s.last_speech_ns,
            is_speech,
            now,
        ),
{
}

/// The segment counter grows by one exactly when a segment starts, and the event
/// carries the new count.
pub proof fn lemma_count_tracks_starts(s: SegmentModel, is_speech: bool, now: u64)
    requires
        starts_segment(s, is_speech, now) ==> s.segment_count < u32::MAX,
    ensures
        segment_step(s, is_speech, now).1 is Started <==> starts_segment(s, is_speech, now),
        segment_step(s, is_speech, now).1 matches SegmentEvent::Started { segment } ==> segment
            == s.segment_count + 1 && segment_step(s, is_speech, now).0.segment_count == segment,
        !starts_segment(s, is_speech, now) ==> segment_step(s, is_speech, now).0.segment_count
            == s.segment_count,
{
}

/// Speech keeps a running segment going (with a nonzero timeout): no end, no new start.
pub proof fn lemma_speech_continues_segment(s: SegmentModel, now: u64)
    requires
        s.is_speaking,
        s.silence_timeout_ns > 0,
    ensures
        segment_step(s, true, now) == (SegmentModel { last_speech_ns: Some(now), ..s }, SegmentEvent::Continued),
{
}

/// Speech starts a segment when none runs (with a nonzero timeout).
pub proof fn lemma_speech_starts_segment(s: SegmentModel, now: u64)
    requires
        !s.is_speaking,
        s.silence_timeout_ns > 0,
    ensures
        starts_segment(s, true, now),
{
}

/// A segment ends only on a silent chunk taken at least the timeout after the last speech.
pub proof fn lemma_end_needs_silence(s: SegmentModel, is_speech: bool, now: u64)
    requires
        segment_step(s, is_speech, now).1 is Ended,
    ensures
        !is_speech || s.silence_timeout_ns == 0,
        s.is_speaking,
        match s.last_speech_ns {
            Some(l) => elapsed(now, l) >= s.silence_timeout_ns,
            None => true,
        },
{
}

/// With a zero timeout nothing is ever recorded.
pub proof fn lemma_zero_timeout_never_records(s: SegmentModel, is_speech: bool, now: u64)
    requires
        s.silence_timeout_ns == 0,
        !s.is_speaking,
    ensures
        segment_step(s, is_speech, now).1 == SegmentEvent::Continued,
        !segment_step(s, is_speech, now).0.is_speaking,
{
}

/// Starts and ends alternate: a segment starts only when none runs and ends only when one
/// runs, and a chunk that changes nothing leaves the running state as it was.
pub proof fn lemma_events_alternate(s: SegmentModel, is_speech: bool, now: u64)
    ensures
        segment_step(s, is_speech, now).1 is Started ==> !s.is_speaking && segment_step(
            s,
            is_speech,
            now,
        ).0.is_speaking,
        segment_step(s, is_speech, now).1 is Ended ==> s.is_speaking && !segment_step(
            s,
            is_speech,
            now,
        ).0.is_speaking,
        segment_step(s, is_speech, now).1 is Continued ==> segment_step(
            s,
            is_speech,
            now,
        ).0.is_speaking == s.is_speaking,
{
}

/// A run of chunks, each a speech verdict and the time it was taken: the final state and
/// the event of every chunk, in order.
pub open spec fn segment_run(s: SegmentModel, chunks: Seq<(bool, u64)>) -> (
    SegmentModel,
    Seq<SegmentEvent>,
)
    decreases chunks.len(),
{
    if chunks.len() == 0 {
        (s, Seq::empty())
    } else {
        let (next, event) = segment_step(s, chunks[0].0, chunks[0].1);
        let (last, events) = segment_run(next, chunks.drop_first());
        (last, seq![event] + events)
    }
}

/// The last time speech was heard after a run of chunks.
pub open spec fn latest_speech(last: Option<u64>, chunks: Seq<(bool, u64)>) -> Option<u64>
    decreases chunks.len(),
{
    if chunks.len() == 0 {
        last
    } else {
        latest_speech(next_last_speech(last, chunks[0].0, chunks[0].1), chunks.drop_first())
    }
}

/// Whether a list of events starts and ends segments in turn, given whether one runs at first.
pub open spec fn alternates(events: Seq<SegmentEvent>, speaking: bool) -> bool
    decreases events.len(),
{
    if events.len() == 0 {
        true
    } else {
        match events[0] {
            SegmentEvent::Started { .. } => !speaking && alternates(events.drop_first(), true),
            SegmentEvent::Ended { .. } => speaking && alternates(events.drop_first(), false),
            SegmentEvent::Continued => alternates(events.drop_first(), speaking),
        }
    }
}

/// How many segments a list of events starts.
pub open spec fn count_starts(events: Seq<SegmentEvent>) -> nat
    decreases events.len(),
{
    if events.len() == 0 {
        0
    } else {
        (if events[0] is Started { 1nat } else { 0nat }) + count_starts(events.drop_first())
    }
}

/// Over a whole run, starts and ends alternate, beginning with a start when no segment runs.
pub proof fn lemma_run_alternates(s: SegmentModel, chunks: Seq<(bool, u64)>)
    ensures
        alternates(segment_run(s, chunks).1, s.is_speaking),
    decreases chunks.len(),
{
    if chunks.len() > 0 {
        let (next, event) = segment_step(s, chunks[0].0, chunks[0].1);
        lemma_events_alternate(s, chunks[0].0, chunks[0].1);
        lemma_run_alternates(next, chunks.drop_first());
        let events = segment_run(s, chunks).1;
        assert(events.drop_first() =~= segment_run(next, chunks.drop_first()).1);
    }
}

/// Over a whole run the counter grows by the number of segments started (whenever those
/// starts do not overflow the counter).
pub proof fn lemma_run_counts_starts(s: SegmentModel, chunks: Seq<(bool, u64)>)
    requires
        s.segment_count + count_starts(segment_run(s, chunks).1) <= u32::MAX,
    ensures
        segment_run(s, chunks).0.segment_count == s.segment_count + count_starts(
            segment_run(s, chunks).1,
        ),
    decreases chunks.len(),
{
    if chunks.len() > 0 {
        let (next, event) = segment_step(s, chunks[0].0, chunks[0].1);
        let events = segment_run(s, chunks).1;
        assert(events.drop_first() =~= segment_run(next, chunks.drop_first()).1);
        assert(events[0] == event);
        lemma_count_tracks_starts(s, chunks[0].0, chunks[0].1);
        lemma_run_counts_starts(next, chunks.drop_first());
    }
}

/// After a non-empty run, speech was last heard at `latest_speech`, and a segment runs
/// exactly when that was less than the timeout before the last chunk.
pub proof fn lemma_run_speaking(s: SegmentModel, chunks: Seq<(bool, u64)>)
    requires
        chunks.len() > 0,
    ensures
        segment_run(s, chunks).0.last_speech_ns == latest_speech(s.last_speech_ns, chunks),
        segment_run(s, chunks).0.silence_timeout_ns == s.silence_timeout_ns,
        segment_run(s, chunks).0.is_speaking == within_timeout(
            latest_speech(s.last_speech_ns, chunks),
            chunks.last().1,
            s.silence_timeout_ns,
        ),
    decreases chunks.len(),
{
    let (next, event) = segment_step(s, chunks[0].0, chunks[0].1);
    if chunks.len() > 1 {
        lemma_run_speaking(next, chunks.drop_first());
        assert(chunks.drop_first().last() == chunks.last());
    } else {
        let rest = chunks.drop_first();
        assert(rest.len() == 0);
        assert(segment_run(next, rest).0 == next);
        assert(latest_speech(next.last_speech_ns, rest) == next.last_speech_ns);
        assert(chunks.last() == chunks[0]);
    }
}

/// With a zero timeout a run starts no segment and leaves none running.
pub proof fn lemma_run_zero_timeout(s: SegmentModel, chunks: Seq<(bool, u64)>)
    requires
        s.silence_timeout_ns == 0,
        !s.is_speaking,
    ensures
        count_starts(segment_run(s, chunks).1) == 0,
        !segment_run(s, chunks).0.is_speaking,
    decreases chunks.len(),
{
    if chunks.len() > 0 {
        let (next, event) = segment_step(s, chunks[0].0, chunks[0].1);
        lemma_zero_timeout_never_records(s, chunks[0].0, chunks[0].1);
        lemma_run_zero_timeout(next, chunks.drop_first());
        let events = segment_run(s, chunks).1;
        assert(events.drop_first() =~= segment_run(next, chunks.drop_first()).1);
    }
}

/// The last speech time of a run, read from its end: the time of the last speech chunk,
/// or what was known before the run when it has none.
pub proof fn lemma_latest_speech_from_end(last: Option<u64>, chunks: Seq<(bool, u64)>)
    requires
        chunks.len() > 0,
    ensures
        latest_speech(last, chunks) == if chunks.last().0 {
            Some(chunks.last().1)
        } else {
            latest_speech(last, chunks.drop_last())
        },
    decreases chunks.len(),
{
    let rest = chunks.drop_first();
    let next = next_last_speech(last, chunks[0].0, chunks[0].1);
    if chunks.len() == 1 {
        assert(rest.len() == 0);
        assert(chunks.drop_last().len() == 0);
        assert(chunks.last() == chunks[0]);
    } else {
        lemma_latest_speech_from_end(next, rest);
        assert(rest.last() == chunks.last());
        assert(rest.drop_last() =~= chunks.drop_last().drop_first());
        assert(chunks.drop_last()[0] == chunks[0]);
    }
}

/// Chunk times never go backwards, as a monotonic clock gives them.
pub open spec fn times_nondecreasing(chunks: Seq<(bool, u64)>) -> bool {
    forall|i: int, j: int| 0 <= i <= j < chunks.len() ==> chunks[i].1 <= chunks[j].1
}

/// Some speech chunk of the run was taken less than `timeout_ns` before `now`.
pub open spec fn speech_heard_within(chunks: Seq<(bool, u64)>, now: u64, timeout_ns: u64) -> bool {
    exists|j: int| 0 <= j < chunks.len() && (#[trigger] chunks[j]).0 && elapsed(now, chunks[j].1) < timeout_ns
}

/// With times from a monotonic clock, and at any time no earlier than the run's chunks,
/// audio is wanted exactly when some speech chunk of the run lies within the timeout.
pub proof fn lemma_wanted_iff_recent_speech(chunks: Seq<(bool, u64)>, now: u64, timeout_ns: u64)
    requires
        times_nondecreasing(chunks),
        forall|i: int| 0 <= i < chunks.len() ==> (#[trigger] chunks[i]).1 <= now,
    ensures
        within_timeout(latest_speech(None, chunks), now, timeout_ns) == speech_heard_within(
            chunks,
            now,
            timeout_ns,
        ),
    decreases chunks.len(),
{
    if chunks.len() == 0 {
        assert(!speech_heard_within(chunks, now, timeout_ns));
    } else {
        let k = chunks.len() - 1;
        let prefix = chunks.drop_last();
        lemma_latest_speech_from_end(None, chunks);
        if chunks[k].0 {
            assert(chunks.last() == chunks[k]);
            if speech_heard_within(chunks, now, timeout_ns) {
                let j = choose|j: int|
                    0 <= j < chunks.len() && (#[trigger] chunks[j]).0 && elapsed(now, chunks[j].1)
                        < timeout_ns;
                assert(chunks[j].1 <= chunks[k].1);
            }
        } else {
            assert forall|i: int, j: int| 0 <= i <= j < prefix.len() implies prefix[i].1
                <= prefix[j].1 by {
                assert(prefix[i] == chunks[i] && prefix[j] == chunks[j]);
            }
            assert forall|i: int| 0 <= i < prefix.len() implies (#[trigger] prefix[i]).1 <= now by {
                assert(prefix[i] == chunks[i]);
            }
            lemma_wanted_iff_recent_speech(prefix, now, timeout_ns);
            if speech_heard_within(chunks, now, timeout_ns) {
                let j = choose|j: int|
                    0 <= j < chunks.len() && (#[trigger] chunks[j]).0 && elapsed(now, chunks[j].1)
                        < timeout_ns;
                assert(j != k);
                assert(prefix[j] == chunks[j]);
            }
            if speech_heard_within(prefix, now, timeout_ns) {
                let j = choose|j: int|
                    0 <= j < prefix.len() && (#[trigger] prefix[j]).0 && elapsed(now, prefix[j].1)
                        < timeout_ns;
                assert(prefix[j] == chunks[j]);
            }
        }
    }
}

} // verus!
