//! State of the continuously running voice activity recorder.
use crate::config::{choose_vad_sample_rate, select_vad_config, vad_priority, vad_rate_for, ConfigRange};
use crate::device::device_not_found_message;
use crate::segmenter::{
    latest_speech, lemma_wanted_iff_recent_speech, next_last_speech, speech_heard_within,
    times_nondecreasing, within_timeout, SpeechGate,
};
use vstd::prelude::*;

verus! {

#[verifier::external_type_specification]
#[verifier::external_body]
pub struct ExIoError(std::io::Error);

#[verifier::external_type_specification]
#[verifier::external_body]
pub struct ExWavError(hound::Error);

/// Errors of the voice activity recorder.
#[derive(Debug)]
pub enum VadError {
    DeviceError(String),
    StreamError(String),
    NotInitialized,
    AlreadyRunning,
    IoError(std::io::Error),
    WavError(hound::Error),
}

/// Silence, in milliseconds, after which a speech segment ends unless told otherwise.
pub const DEFAULT_SILENCE_TIMEOUT_MS: u32 = 800;

/// What the voice activity recorder reports about itself.
#[derive(Debug, Clone)]
pub struct VadState {
    pub is_running: bool,
    pub is_speaking: bool,
    pub current_file: Option<String>,
}

impl VadState {
    /// A state the recorder can report: a file is current exactly while speech is being
    /// recorded, and speech is recorded only while the session runs.
    pub open spec fn consistent(&self) -> bool {
        &&& self.is_speaking == self.current_file is Some
        &&& self.is_speaking ==> self.is_running
    }

    /// The state after a segment started, written to `file`.
    pub open spec fn begun(self, file: String) -> VadState {
        VadState { is_speaking: true, current_file: Some(file), ..self }
    }

    /// The state after the segment ended.
    pub open spec fn ended(self) -> VadState {
        VadState { is_speaking: false, current_file: None, ..self }
    }

    /// The idle state as a value: not running, not speaking, no file.
    pub open spec fn idle_value() -> VadState {
        VadState { is_running: false, is_speaking: false, current_file: None }
    }

    /// The state reported when no session runs.
    pub fn idle() -> (r: VadState)
        ensures
            r == VadState::idle_value(),
            r.consistent(),
    {
        VadState { is_running: false, is_speaking: false, current_file: None }
    }

    /// The state of a session that has just started.
    pub fn started() -> (r: VadState)
        ensures
            r.is_running,
            !r.is_speaking,
            r.current_file is None,
            r.consistent(),
    {
        VadState { is_running: true, is_speaking: false, current_file: None }
    }

    /// A copy of the state.
    pub fn snapshot(&self) -> (r: VadState)
        ensures
            r == *self,
    {
        let current_file = match &self.current_file {
            Some(f) => Some(f.clone()),
            None => None,
        };
        VadState { is_running: self.is_running, is_speaking: self.is_speaking, current_file }
    }

    /// A speech segment started and is written to `file`.
    pub fn begin_segment(&mut self, file: String)
        ensures
            final(self).is_running == old(self).is_running,
            final(self).is_speaking,
            final(self).current_file == Some(file),
            *final(self) == old(self).begun(file),
            old(self).is_running ==> final(self).consistent(),
    {
        self.is_speaking = true;
        self.current_file = Some(file);
    }

    /// The speech segment ended: returns the file it was written to (empty when none
    /// was recorded) and clears it.
    pub fn end_segment(&mut self) -> (file: String)
        ensures
            final(self).is_running == old(self).is_running,
            !final(self).is_speaking,
            final(self).current_file is None,
            *final(self) == old(self).ended(),
            final(self).consistent(),
            file@ == match old(self).current_file {
                Some(f) => f@,
                None => Seq::<char>::empty(),
            },
    {
        let file = match &self.current_file {
            Some(f) => f.clone(),
            None => String::new(),
        };
        self.is_speaking = false;
        self.current_file = None;
        file
    }

    /// The session stopped.
    pub fn stop(&mut self)
        ensures
            !final(self).is_running,
            !final(self).is_speaking,
            final(self).current_file is None,
            final(self).consistent(),
    {
        self.is_running = false;
        self.is_speaking = false;
        self.current_file = None;
    }
}

/// The state after the stream callback's segment changes: `Some(file)` starts a segment
/// written to `file`, `None` ends the current one.
pub open spec fn after_segments(s: VadState, changes: Seq<Option<String>>) -> VadState
    decreases changes.len(),
{
    if changes.len() == 0 {
        s
    } else {
        let next = match changes[0] {
            Some(f) => s.begun(f),
            None => s.ended(),
        };
        after_segments(next, changes.drop_first())
    }
}

/// Every state a running session passes through is one the recorder can report: while it
/// runs, segments starting and ending keep "speaking" and "current file" together; and
/// stopping (see `VadState::stop`) leaves a consistent state too.
pub proof fn lemma_running_session_stays_consistent(s: VadState, changes: Seq<Option<String>>)
    requires
        s.consistent(),
        s.is_running,
    ensures
        after_segments(s, changes).consistent(),
        after_segments(s, changes).is_running,
    decreases changes.len(),
{
    if changes.len() > 0 {
        let next = match changes[0] {
            Some(f) => s.begun(f),
            None => s.ended(),
        };
        lemma_running_session_stays_consistent(next, changes.drop_first());
    }
}

/// The state to report: that of the running session, or the idle state when none runs.
pub fn reported_state(session_state: Option<&VadState>) -> (r: VadState)
    ensures
        match session_state {
            Some(s) => r == *s,
            None => r == VadState::idle_value(),
        },
        session_state matches Some(s) ==> (s.consistent() ==> r.consistent()),
        r.consistent() || session_state is Some,
{
    match session_state {
        Some(s) => s.snapshot(),
        None => VadState::idle(),
    }
}

/// The slot holding the one voice activity session of the process.
pub struct VadSessionSlot<S> {
    session: Option<S>,
}

impl<S> View for VadSessionSlot<S> {
    type V = Option<S>;

    closed spec fn view(&self) -> Option<S> {
        self.session
    }
}

impl<S> VadSessionSlot<S> {
    /// An empty slot.
    pub fn new() -> (r: Self)
        ensures
            r@ is None,
    {
        VadSessionSlot { session: None }
    }

    /// Whether a session is held.
    pub fn is_active(&self) -> (r: bool)
        ensures
            r == self@ is Some,
    {
        self.session.is_some()
    }

    /// The held session, if any.
    pub fn get(&self) -> (r: Option<&S>)
        ensures
            r == match self@ {
                Some(s) => Some(&s),
                None => None::<&S>,
            },
    {
        match &self.session {
            Some(s) => Some(s),
            None => None,
        }
    }

    /// Holds `session` from now on.
    pub fn install(&mut self, session: S)
        ensures
            final(self)@ == Some(session),
    {
        self.session = Some(session);
    }

    /// Takes the held session out; fails with `NotInitialized` when none is held.
    pub fn take(&mut self) -> (r: Result<S, VadError>)
        ensures
            final(self)@ is None,
            match old(self)@ {
                Some(s) => r == Ok::<S, VadError>(s),
                None => r matches Err(VadError::NotInitialized),
            },
    {
        match self.session.take() {
            Some(s) => Ok(s),
            None => Err(VadError::NotInitialized),
        }
    }
}

/// The silence timeout to use: the requested one, or 800 ms.
pub fn silence_timeout_or_default(requested: Option<u32>) -> (r: u32)
    ensures
        r == match requested {
            Some(ms) => ms,
            None => DEFAULT_SILENCE_TIMEOUT_MS,
        },
{
    match requested {
        Some(ms) => ms,
        None => DEFAULT_SILENCE_TIMEOUT_MS,
    }
}

/// Picks the range and rate the voice activity recorder uses: the range a stable sort by
/// `vad_priority` puts first, at the rate `vad_rate_for` gives; fails when the device
/// offers no range.
pub fn pick_vad_config(configs: &Vec<ConfigRange>) -> (r: Result<(usize, u32), VadError>)
    ensures
        r is Err <==> configs@.len() == 0,
        r matches Err(e) ==> e matches VadError::DeviceError(m) && m@
            == "No supported audio config found"@,
        r matches Ok((i, rate)) ==> {
            &&& i < configs@.len()
            &&& rate == vad_rate_for(configs@[i as int])
            &&& forall|j: int|
                0 <= j < configs@.len() ==> vad_priority(configs@[i as int].min_sample_rate)
                    <= vad_priority(#[trigger] configs@[j].min_sample_rate)
            &&& forall|j: int|
                0 <= j < i ==> vad_priority(configs@[i as int].min_sample_rate) < vad_priority(
                    #[trigger] configs@[j].min_sample_rate,
                )
        },
{
    match select_vad_config(configs) {
        Some(i) => {
            let rate = choose_vad_sample_rate(&configs[i]);
            Ok((i, rate))
        },
        None => Err(VadError::DeviceError(String::from_str("No supported audio config found"))),
    }
}

/// The error for a missing default device.
pub fn no_default_device_error() -> (r: VadError)
    ensures
        r matches VadError::DeviceError(m) && m@ == "No default input device found"@,
{
    VadError::DeviceError(String::from_str("No default input device found"))
}

/// The error for a named device that is not present.
pub fn device_not_found_error(identifier: &str) -> (r: VadError)
    ensures
        r matches VadError::DeviceError(m) && m@ == "Device '"@ + identifier@ + "' not found"@,
{
    VadError::DeviceError(device_not_found_message(identifier))
}

/// What the voice activity stream does with the current chunk's file.
#[derive(Clone, Copy, Debug, PartialEq, Eq, Structural)]
pub enum VadAction {
    /// Speech is being heard and no file is open: open one.
    OpenFile,
    /// Silence outlasted the timeout while a file is open: finalize and deliver it.
    CloseFile,
    /// Keep things as they are.
    Keep,
}

/// The decision of the voice activity stream for a chunk.
pub open spec fn vad_action_for(should_record: bool, file_open: bool) -> VadAction {
    if should_record && !file_open {
        VadAction::OpenFile
    } else if !should_record && file_open {
        VadAction::CloseFile
    } else {
        VadAction::Keep
    }
}

/// The voice activity stream's view of one session: when speech was last heard and
/// whether a segment file is open.
pub struct VadStreamTracker {
    pub gate: SpeechGate,
    pub file_open: bool,
}

impl VadStreamTracker {
    /// A tracker that has heard nothing and holds no file.
    pub fn new(silence_timeout_ms: u32) -> (r: Self)
        ensures
            r.gate.last_speech_ns is None,
            r.gate.silence_timeout_ns == silence_timeout_ms * 1_000_000,
            !r.file_open,
    {
        VadStreamTracker { gate: SpeechGate::new(silence_timeout_ms), file_open: false }
    }

    /// Takes the speech verdict for a chunk taken at `now_ns`. A file that is to be
    /// closed counts as closed from here on; one that is to be opened counts as open
    /// once `file_opened` is called.
    pub fn observe_chunk(&mut self, is_speech: bool, now_ns: u64) -> (action: VadAction)
        ensures
            final(self).gate.silence_timeout_ns == old(self).gate.silence_timeout_ns,
            final(self).gate.last_speech_ns == next_last_speech(
                old(self).gate.last_speech_ns,
                is_speech,
                now_ns,
            ),
            action == vad_action_for(
                within_timeout(
                    final(self).gate.last_speech_ns,
                    now_ns,
                    final(self).gate.silence_timeout_ns,
                ),
                old(self).file_open,
            ),
            final(self).file_open == (old(self).file_open && action != VadAction::CloseFile),
    {
        let record = self.gate.observe(is_speech, now_ns);
        if record && !self.file_open {
            VadAction::OpenFile
        } else if !record && self.file_open {
            self.file_open = false;
            VadAction::CloseFile
        } else {
            VadAction::Keep
        }
    }

    /// Whether the current chunk goes into the segment file: exactly while one is open.
    pub fn should_write(&self) -> (r: bool)
        ensures
            r == self.file_open,
    {
        self.file_open
    }

    /// A segment file was opened.
    pub fn file_opened(&mut self)
        ensures
            final(self).gate == old(self).gate,
            final(self).file_open,
    {
        self.file_open = true;
    }
}


/// One chunk of the voice activity stream: the tracker after a chunk with this speech
/// verdict and time, where `opened` tells whether a file the chunk asks for could be
/// opened; and the action taken.
pub open spec fn stream_step(t: VadStreamTracker, is_speech: bool, now: u64, opened: bool) -> (
    VadStreamTracker,
    VadAction,
) {
    let last = next_last_speech(t.gate.last_speech_ns, is_speech, now);
    let action = vad_action_for(within_timeout(last, now, t.gate.silence_timeout_ns), t.file_open);
    let open = match action {
        VadAction::OpenFile => opened,
        VadAction::CloseFile => false,
        VadAction::Keep => t.file_open,
    };
    (VadStreamTracker { gate: SpeechGate { last_speech_ns: last, ..t.gate }, file_open: open }, action)
}

/// A run of chunks (speech verdict, time, whether a requested file opened): the final
/// tracker and, per chunk, the action and whether a file was opened.
pub open spec fn stream_run(t: VadStreamTracker, chunks: Seq<(bool, u64, bool)>) -> (
    VadStreamTracker,
    Seq<(VadAction, bool)>,
)
    decreases chunks.len(),
{
    if chunks.len() == 0 {
        (t, Seq::empty())
    } else {
        let (next, action) = stream_step(t, chunks[0].0, chunks[0].1, chunks[0].2);
        let (last, steps) = stream_run(next, chunks.drop_first());
        (last, seq![(action, chunks[0].2)] + steps)
    }
}

/// Whether the stream's announcements alternate: a "speech start" is announced when a
/// file opens, a "speech detected" when one closes; `open` tells whether a file is open at
/// first.
pub open spec fn announcements_alternate(steps: Seq<(VadAction, bool)>, open: bool) -> bool
    decreases steps.len(),
{
    if steps.len() == 0 {
        true
    } else {
        match steps[0].0 {
            VadAction::OpenFile => !open && announcements_alternate(steps.drop_first(), steps[0].1),
            VadAction::CloseFile => open && announcements_alternate(steps.drop_first(), false),
            VadAction::Keep => announcements_alternate(steps.drop_first(), open),
        }
    }
}

/// Over a whole run of the voice activity stream, files open only when none is open and
/// close only when one is: "speech start" and "speech detected" strictly alternate,
/// beginning with a start when no file is open.
pub proof fn lemma_stream_announcements_alternate(t: VadStreamTracker, chunks: Seq<(bool, u64, bool)>)
    ensures
        announcements_alternate(stream_run(t, chunks).1, t.file_open),
    decreases chunks.len(),
{
    if chunks.len() > 0 {
        let (next, action) = stream_step(t, chunks[0].0, chunks[0].1, chunks[0].2);
        lemma_stream_announcements_alternate(next, chunks.drop_first());
        let steps = stream_run(t, chunks).1;
        assert(steps.drop_first() =~= stream_run(next, chunks.drop_first()).1);
    }
}

/// With a zero silence timeout the stream never opens a file, and closes any open one.
pub proof fn lemma_stream_zero_timeout(t: VadStreamTracker, chunks: Seq<(bool, u64, bool)>)
    requires
        t.gate.silence_timeout_ns == 0,
    ensures
        stream_run(t, chunks).1.len() == chunks.len(),
        forall|i: int|
            0 <= i < chunks.len() ==> (#[trigger] stream_run(t, chunks).1[i]).0 != VadAction::OpenFile,
        chunks.len() > 0 ==> !stream_run(t, chunks).0.file_open,
    decreases chunks.len(),
{
    if chunks.len() > 0 {
        let (next, action) = stream_step(t, chunks[0].0, chunks[0].1, chunks[0].2);
        assert(action != VadAction::OpenFile);
        assert(!next.file_open);
        assert(next.gate.silence_timeout_ns == 0);
        lemma_stream_zero_timeout(next, chunks.drop_first());
        let steps = stream_run(t, chunks).1;
        assert(steps.drop_first() =~= stream_run(next, chunks.drop_first()).1);
        assert forall|i: int| 0 <= i < chunks.len() implies (#[trigger] steps[i]).0
            != VadAction::OpenFile by {
            if i > 0 {
                assert(steps[i] == steps.drop_first()[i - 1]);
            }
        }
        if chunks.len() == 1 {
            assert(stream_run(next, chunks.drop_first()).0 == next);
        }
    }
}

/// The speech verdicts and times of a stream run.
pub open spec fn speech_of(chunks: Seq<(bool, u64, bool)>) -> Seq<(bool, u64)> {
    chunks.map_values(|c: (bool, u64, bool)| (c.0, c.1))
}

/// One chunk decides whether a file is open: exactly when audio is wanted and either a
/// file was already open or the one asked for could be opened.
pub proof fn lemma_stream_step_open(t: VadStreamTracker, is_speech: bool, now: u64, opened: bool)
    ensures
        stream_step(t, is_speech, now, opened).0.file_open == (within_timeout(
            next_last_speech(t.gate.last_speech_ns, is_speech, now),
            now,
            t.gate.silence_timeout_ns,
        ) && (t.file_open || opened)),
        stream_step(t, is_speech, now, opened).0.gate.last_speech_ns == next_last_speech(
            t.gate.last_speech_ns,
            is_speech,
            now,
        ),
        stream_step(t, is_speech, now, opened).0.gate.silence_timeout_ns
            == t.gate.silence_timeout_ns,
{
}

/// A stream run ends in the step of its last chunk from the state before it.
pub proof fn lemma_stream_run_last(t: VadStreamTracker, chunks: Seq<(bool, u64, bool)>)
    requires
        chunks.len() > 0,
    ensures
        stream_run(t, chunks).0 == stream_step(
            stream_run(t, chunks.drop_last()).0,
            chunks.last().0,
            chunks.last().1,
            chunks.last().2,
        ).0,
    decreases chunks.len(),
{
    let (next, _) = stream_step(t, chunks[0].0, chunks[0].1, chunks[0].2);
    let rest = chunks.drop_first();
    if chunks.len() == 1 {
        assert(rest.len() == 0);
        assert(chunks.drop_last().len() == 0);
        assert(chunks.last() == chunks[0]);
        assert(stream_run(next, rest).0 == next);
    } else {
        lemma_stream_run_last(next, rest);
        assert(rest.last() == chunks.last());
        assert(chunks.drop_last().drop_first() =~= rest.drop_last());
        assert(chunks.drop_last()[0] == chunks[0]);
    }
}

/// Over a stream run speech was last heard at `latest_speech` of its verdicts and times.
pub proof fn lemma_stream_run_gate(t: VadStreamTracker, chunks: Seq<(bool, u64, bool)>)
    ensures
        stream_run(t, chunks).0.gate.last_speech_ns == latest_speech(
            t.gate.last_speech_ns,
            speech_of(chunks),
        ),
        stream_run(t, chunks).0.gate.silence_timeout_ns == t.gate.silence_timeout_ns,
    decreases chunks.len(),
{
    if chunks.len() > 0 {
        let (next, _) = stream_step(t, chunks[0].0, chunks[0].1, chunks[0].2);
        lemma_stream_run_gate(next, chunks.drop_first());
        assert(speech_of(chunks).drop_first() =~= speech_of(chunks.drop_first()));
        assert(speech_of(chunks)[0] == (chunks[0].0, chunks[0].1));
    } else {
        assert(speech_of(chunks).len() == 0);
    }
}

/// After a stream run, a file is open exactly when audio is wanted at the last chunk
/// (speech heard within the timeout) and the file was open before it or the one it asked
/// for could be opened.
pub proof fn lemma_stream_run_open(t: VadStreamTracker, chunks: Seq<(bool, u64, bool)>)
    requires
        chunks.len() > 0,
    ensures
        stream_run(t, chunks).0.file_open == (within_timeout(
            latest_speech(t.gate.last_speech_ns, speech_of(chunks)),
            chunks.last().1,
            t.gate.silence_timeout_ns,
        ) && (stream_run(t, chunks.drop_last()).0.file_open || chunks.last().2)),
{
    lemma_stream_run_last(t, chunks);
    let before = stream_run(t, chunks.drop_last()).0;
    lemma_stream_run_gate(t, chunks.drop_last());
    lemma_stream_run_gate(t, chunks);
    lemma_stream_step_open(before, chunks.last().0, chunks.last().1, chunks.last().2);
}

/// For a session that starts having heard nothing, with chunk times from a monotonic
/// clock: after each chunk audio is wanted exactly when some speech chunk so far lies
/// within the timeout, and a file is open exactly when that holds and the file was open
/// before or the one asked for could be opened.
pub proof fn lemma_stream_open_iff_recent_speech(
    t: VadStreamTracker,
    chunks: Seq<(bool, u64, bool)>,
)
    requires
        chunks.len() > 0,
        t.gate.last_speech_ns is None,
        times_nondecreasing(speech_of(chunks)),
    ensures
        stream_run(t, chunks).0.file_open == (speech_heard_within(
            speech_of(chunks),
            chunks.last().1,
            t.gate.silence_timeout_ns,
        ) && (stream_run(t, chunks.drop_last()).0.file_open || chunks.last().2)),
{
    lemma_stream_run_open(t, chunks);
    let sp = speech_of(chunks);
    let k = chunks.len() - 1;
    assert forall|i: int| 0 <= i < sp.len() implies (#[trigger] sp[i]).1 <= chunks.last().1 by {
        assert(sp[i].1 <= sp[k].1);
    }
    lemma_wanted_iff_recent_speech(sp, chunks.last().1, t.gate.silence_timeout_ns);
}

/// The file a state has open, as a list of none or one path.
pub open spec fn pending_file(s: VadState) -> Seq<Seq<char>> {
    match s.current_file {
        Some(f) => seq![f@],
        None => Seq::empty(),
    }
}

/// What `VadState::end_segment` returns from a state.
pub open spec fn ended_file(s: VadState) -> Seq<char> {
    match s.current_file {
        Some(f) => f@,
        None => Seq::empty(),
    }
}

/// The paths of the segments started by a list of changes, in order.
pub open spec fn begun_paths(changes: Seq<Option<String>>) -> Seq<Seq<char>>
    decreases changes.len(),
{
    if changes.len() == 0 {
        Seq::empty()
    } else {
        let first: Seq<Seq<char>> = match changes[0] {
            Some(f) => seq![f@],
            None => Seq::empty(),
        };
        first + begun_paths(changes.drop_first())
    }
}

/// The paths announced as detected (what each end returns), in order.
pub open spec fn ended_paths(s: VadState, changes: Seq<Option<String>>) -> Seq<Seq<char>>
    decreases changes.len(),
{
    if changes.len() == 0 {
        Seq::empty()
    } else {
        match changes[0] {
            Some(f) => ended_paths(s.begun(f), changes.drop_first()),
            None => seq![ended_file(s)] + ended_paths(s.ended(), changes.drop_first()),
        }
    }
}

/// Whether segments start only when none runs and end only when one runs, as the stream
/// opens and closes files in turn.
pub open spec fn changes_alternate(speaking: bool, changes: Seq<Option<String>>) -> bool
    decreases changes.len(),
{
    if changes.len() == 0 {
        true
    } else {
        match changes[0] {
            Some(_) => !speaking && changes_alternate(true, changes.drop_first()),
            None => speaking && changes_alternate(false, changes.drop_first()),
        }
    }
}

/// Every path announced as detected is the path of a started segment, in the order they
/// started, each once: the detected paths, followed by the file still open, are exactly
/// the file open at first followed by the started paths. So each detected announcement
/// names the file of the start just before it.
pub proof fn lemma_detected_paths_pair_with_starts(s: VadState, changes: Seq<Option<String>>)
    requires
        s.is_speaking == s.current_file is Some,
        changes_alternate(s.is_speaking, changes),
    ensures
        ended_paths(s, changes) + pending_file(after_segments(s, changes)) == pending_file(s)
            + begun_paths(changes),
    decreases changes.len(),
{
    if changes.len() == 0 {
        assert(pending_file(s) + begun_paths(changes) =~= pending_file(s));
        assert(ended_paths(s, changes) + pending_file(s) =~= pending_file(s));
    } else {
        let rest = changes.drop_first();
        match changes[0] {
            Some(f) => {
                let next = s.begun(f);
                lemma_detected_paths_pair_with_starts(next, rest);
                assert(pending_file(s) =~= Seq::<Seq<char>>::empty());
                assert(pending_file(next) =~= seq![f@]);
                assert(begun_paths(changes) =~= seq![f@] + begun_paths(rest));
                assert(pending_file(s) + begun_paths(changes) =~= pending_file(next) + begun_paths(
                    rest,
                ));
            },
            None => {
                let next = s.ended();
                lemma_detected_paths_pair_with_starts(next, rest);
                assert(pending_file(next) =~= Seq::<Seq<char>>::empty());
                assert(pending_file(s) =~= seq![ended_file(s)]);
                assert(begun_paths(changes) =~= begun_paths(rest));
                assert(ended_paths(s, changes) + pending_file(after_segments(s, changes)) =~= seq![
                    ended_file(s),
                ] + (ended_paths(next, rest) + pending_file(after_segments(next, rest))));
            },
        }
    }
}

/// The state changes the stream callback makes for a run's steps: a file that opened
/// starts a segment at the path given for its chunk, a closed file ends the segment.
pub open spec fn changes_of(steps: Seq<(VadAction, bool)>, paths: Seq<String>) -> Seq<
    Option<String>,
>
    decreases steps.len(),
{
    if steps.len() == 0 {
        Seq::empty()
    } else {
        let first: Seq<Option<String>> = match steps[0].0 {
            VadAction::OpenFile => if steps[0].1 {
                seq![Some(paths[0])]
            } else {
                Seq::empty()
            },
            VadAction::CloseFile => seq![None::<String>],
            VadAction::Keep => Seq::empty(),
        };
        first + changes_of(steps.drop_first(), paths.drop_first())
    }
}

/// When the stream's files open and close in turn, so do the segments of the reported
/// state; with `lemma_detected_paths_pair_with_starts`, every "speech detected" names the
/// file of the "speech start" before it.
pub proof fn lemma_stream_changes_alternate(
    steps: Seq<(VadAction, bool)>,
    paths: Seq<String>,
    open: bool,
)
    requires
        announcements_alternate(steps, open),
    ensures
        changes_alternate(open, changes_of(steps, paths)),
    decreases steps.len(),
{
    if steps.len() > 0 {
        let rest = steps.drop_first();
        let rp = paths.drop_first();
        let tail = changes_of(rest, rp);
        let all = changes_of(steps, paths);
        match steps[0].0 {
            VadAction::OpenFile => {
                lemma_stream_changes_alternate(rest, rp, steps[0].1);
                if steps[0].1 {
                    assert(all =~= seq![Some(paths[0])] + tail);
                    assert(all.drop_first() =~= tail);
                } else {
                    assert(all =~= tail);
                }
            },
            VadAction::CloseFile => {
                lemma_stream_changes_alternate(rest, rp, false);
                assert(all =~= seq![None::<String>] + tail);
                assert(all.drop_first() =~= tail);
            },
            VadAction::Keep => {
                lemma_stream_changes_alternate(rest, rp, open);
                assert(all =~= tail);
            },
        }
    }
}

} // verus!
