//! State of a recording session: whether one is open, whether it records, and where
//! its audio goes. The session's worker thread, stream and file live with the caller;
//! this state decides what they are told to do.
use vstd::prelude::*;

verus! {

/// `Path::join` of a base path and a relative name, as text.
pub uninterp spec fn path_join(base: Seq<char>, name: Seq<char>) -> Seq<char>;

/// `Path::file_stem` of a path given as text.
pub uninterp spec fn path_file_stem(path: Seq<char>) -> Option<Seq<char>>;

/// A path separator on some platform: `/`, or `\\` on Windows.
pub open spec fn is_separator(c: char) -> bool {
    c == '/' || c == '\\'
}

/// An ASCII letter.
pub open spec fn is_ascii_letter(c: char) -> bool {
    (65 <= (c as int) && (c as int) <= 90) || (97 <= (c as int) && (c as int) <= 122)
}

/// Text that begins with a drive (`X:`), which Windows reads as a path prefix.
pub open spec fn starts_with_drive(f: Seq<char>) -> bool {
    f.len() >= 2 && is_ascii_letter(f[0]) && f[1] == ':'
}

/// Text that begins with two separators, which Windows reads as a UNC, device or
/// verbatim prefix.
pub open spec fn starts_with_two_separators(f: Seq<char>) -> bool {
    f.len() >= 2 && is_separator(f[0]) && is_separator(f[1])
}

/// A single plain file name: not empty, without a separator, not beginning with a drive,
/// and neither `.` nor `..`.
pub open spec fn plain_file_name(f: Seq<char>) -> bool {
    &&& f.len() > 0
    &&& forall|i: int| 0 <= i < f.len() ==> !is_separator(#[trigger] f[i])
    &&& !starts_with_drive(f)
    &&& f != seq!['.']
    &&& f != seq!['.', '.']
}

/// A relative or absolute name whose last component is a file name: not empty, not ending
/// in a separator, `.` or `:`, and not beginning with a UNC, device or verbatim prefix.
pub open spec fn names_a_file(f: Seq<char>) -> bool {
    &&& f.len() > 0
    &&& !is_separator(f.last())
    &&& f.last() != '.'
    &&& f.last() != ':'
    &&& !starts_with_two_separators(f)
}

/// Position of the last `.` in a file name, or -1.
pub open spec fn last_dot(f: Seq<char>) -> int
    decreases f.len(),
{
    if f.len() == 0 {
        -1
    } else if f.last() == '.' {
        f.len() - 1
    } else {
        last_dot(f.drop_last())
    }
}

/// The stem of a file name, by the rules `Path::file_stem` documents: the whole name when
/// it has no `.`, or when its only `.` is the first character; otherwise the part before
/// the last `.`.
pub open spec fn stem_of_name(f: Seq<char>) -> Seq<char> {
    let k = last_dot(f);
    if k <= 0 {
        f
    } else {
        f.subrange(0, k)
    }
}

/// Calls `Path::join`. The result, converted back to text, is taken to be `path_join` of
/// the two texts; both are valid Unicode, so the conversion loses nothing. How the
/// standard library joins is not stated, with one exception: a plain file name is
/// appended as the last component (it has no root or prefix, so `PathBuf::push` appends
/// it), so the stem of the joined path is the stem of that name, as `Path::file_stem`
/// documents it. And when the name's last component is a file name (`names_a_file`), the
/// joined path ends in that component, so it has a stem.
#[verifier::external_body]
fn join_path(base: &str, name: &str) -> (r: String)
    ensures
        r@ == path_join(base@, name@),
        plain_file_name(name@) ==> path_file_stem(r@) == Some(stem_of_name(name@)),
        names_a_file(name@) ==> path_file_stem(r@) is Some,
{
    std::path::Path::new(base).join(name).to_string_lossy().into_owned()
}

/// Calls `Path::file_stem`. Its result, as text, is taken to be `path_file_stem` of the
/// path; a path made from text always has a stem that is text. How the stem is cut from
/// the file name is not stated.
#[verifier::external_body]
fn file_stem(path: &str) -> (r: Option<String>)
    ensures
        match r {
            Some(s) => path_file_stem(path@) == Some(s@),
            None => path_file_stem(path@) is None,
        },
{
    std::path::Path::new(path).file_stem().and_then(|s| s.to_str()).map(|s| s.to_string())
}

/// The file a recording with this id is written to: `<recording_id>.wav` in the folder.
pub open spec fn recording_path(output_folder: Seq<char>, recording_id: Seq<char>) -> Seq<char> {
    path_join(output_folder, recording_id + ".wav"@)
}

/// A recording id that names a file by itself: not empty, without a separator, and not
/// beginning with a drive (`X:`). A colon elsewhere is fine.
pub open spec fn plain_recording_id(id: Seq<char>) -> bool {
    &&& id.len() > 0
    &&& forall|i: int| 0 <= i < id.len() ==> !is_separator(#[trigger] id[i])
    &&& !starts_with_drive(id)
}

/// The file name of a plain id is plain, and its stem is the id again.
pub proof fn lemma_wav_name_stem(id: Seq<char>)
    requires
        plain_recording_id(id),
    ensures
        plain_file_name(id + ".wav"@),
        stem_of_name(id + ".wav"@) == id,
{
    reveal_strlit(".wav");
    let f = id + ".wav"@;
    assert(f.len() == id.len() + 4);
    assert forall|i: int| 0 <= i < f.len() implies !is_separator(#[trigger] f[i]) by {
        if i < id.len() {
            assert(f[i] == id[i]);
        }
    }
    if id.len() >= 2 {
        assert(f[0] == id[0] && f[1] == id[1]);
    } else {
        assert(f[1] == '.');
    }
    assert(f != seq!['.']);
    assert(f != seq!['.', '.']);
    let f1 = f.drop_last();
    let f2 = f1.drop_last();
    let f3 = f2.drop_last();
    assert(f.last() == 'v');
    assert(f1.last() == 'a');
    assert(f2.last() == 'w');
    assert(f3.last() == '.');
    assert(last_dot(f3) == id.len());
    assert(last_dot(f2) == last_dot(f3));
    assert(last_dot(f1) == last_dot(f2));
    assert(last_dot(f) == last_dot(f1));
    assert(f.subrange(0, id.len() as int) =~= id);
}

/// A WAV file name always ends in a file name; unless the id begins with a UNC, device or
/// verbatim prefix, the whole name does.
pub proof fn lemma_wav_name_names_a_file(id: Seq<char>)
    requires
        !starts_with_two_separators(id),
    ensures
        names_a_file(id + ".wav"@),
{
    reveal_strlit(".wav");
    let f = id + ".wav"@;
    assert(f.last() == 'v');
    if id.len() >= 2 {
        assert(f[0] == id[0] && f[1] == id[1]);
    } else if id.len() == 1 {
        assert(f[1] == '.');
    } else {
        assert(f[0] == '.');
    }
}

/// The path of the WAV file of a recording. Its stem is the id again for a plain id; it
/// has a stem for every id that does not begin with two separators (which Windows would
/// read as a UNC, device or verbatim prefix).
pub fn recording_file_path(output_folder: &str, recording_id: &str) -> (r: String)
    ensures
        r@ == recording_path(output_folder@, recording_id@),
        plain_recording_id(recording_id@) ==> path_file_stem(r@) == Some(recording_id@),
        !starts_with_two_separators(recording_id@) ==> path_file_stem(r@) is Some,
{
    let mut name = String::from_str(recording_id);
    name.append(".wav");
    proof {
        if plain_recording_id(recording_id@) {
            lemma_wav_name_stem(recording_id@);
        }
        if !starts_with_two_separators(recording_id@) {
            lemma_wav_name_names_a_file(recording_id@);
        }
    }
    join_path(output_folder, name.as_str())
}

/// Why a session request was refused.
#[derive(Clone, Copy, Debug, PartialEq, Eq, Structural)]
pub enum SessionError {
    /// No session has been opened.
    NoSession,
}

impl SessionError {
    /// The message the recorder reports for this error.
    pub fn message(&self) -> (r: String)
        ensures
            r@ == "No recording session initialized"@,
    {
        String::from_str("No recording session initialized")
    }
}

/// What closing a session must do.
#[derive(Clone, Copy, Debug, PartialEq, Eq, Structural)]
pub struct CloseSteps {
    /// Tell the worker to shut down and wait for it.
    pub shutdown_worker: bool,
    /// Finalize the session's WAV writer.
    pub finalize_writer: bool,
}

/// What stopping a recording must do.
#[derive(Clone, Copy, Debug, PartialEq, Eq, Structural)]
pub struct StopSteps {
    /// Tell the worker to stop and wait for its confirmation.
    pub notify_worker: bool,
    /// Finalize the WAV writer and take the recording's format from it.
    pub finalize_writer: bool,
}

/// What a stopped recording reports, apart from its duration.
#[derive(Clone, Debug)]
pub struct RecordingSummary {
    pub sample_rate: u32,
    pub channels: u16,
    pub file_path: Option<String>,
}

/// A recording session as the recorder tracks it.
#[derive(Debug)]
pub struct RecorderSession {
    /// A worker thread runs the input stream.
    pub has_worker: bool,
    /// A WAV writer receives the audio (manual sessions only).
    pub has_writer: bool,
    /// The worker has confirmed that it records.
    pub is_recording: bool,
    pub sample_rate: u32,
    pub channels: u16,
    /// The WAV file of a manual session.
    pub file_path: Option<String>,
}

/// The recording id reported for a session: the stem of its file while it records.
pub open spec fn recording_id_of(s: RecorderSession) -> Option<Seq<char>> {
    if s.is_recording {
        match s.file_path {
            Some(p) => path_file_stem(p@),
            None => None,
        }
    } else {
        None
    }
}

/// The session after closing.
pub open spec fn closed_session(s: RecorderSession) -> RecorderSession {
    RecorderSession {
        has_worker: false,
        has_writer: false,
        sample_rate: 0,
        channels: 0,
        file_path: None,
        ..s
    }
}

/// The session after a manual session was opened.
pub open spec fn opened_manual_state(
    sample_rate: u32,
    channels: u16,
    file_path: String,
) -> RecorderSession {
    RecorderSession {
        has_worker: true,
        has_writer: true,
        is_recording: false,
        sample_rate,
        channels,
        file_path: Some(file_path),
    }
}

/// The session after a voice activity session was opened.
pub open spec fn opened_vad_state(sample_rate: u32, channels: u16) -> RecorderSession {
    RecorderSession {
        has_worker: true,
        has_writer: false,
        is_recording: false,
        sample_rate,
        channels,
        file_path: None,
    }
}

/// The session with its recording flag set to `recording`.
pub open spec fn with_recording(s: RecorderSession, recording: bool) -> RecorderSession {
    RecorderSession { is_recording: recording, ..s }
}

impl RecorderSession {
    /// A recorder with no session.
    pub fn new() -> (r: Self)
        ensures
            !r.has_worker,
            !r.has_writer,
            !r.is_recording,
            r.sample_rate == 0,
            r.channels == 0,
            r.file_path is None,
    {
        RecorderSession {
            has_worker: false,
            has_writer: false,
            is_recording: false,
            sample_rate: 0,
            channels: 0,
            file_path: None,
        }
    }

    /// Closes the session: returns what must be shut down, and forgets the worker,
    /// the writer, the file and the format. Whether the last worker recorded is kept.
    pub fn close(&mut self) -> (steps: CloseSteps)
        ensures
            steps == (CloseSteps {
                shutdown_worker: old(self).has_worker,
                finalize_writer: old(self).has_writer,
            }),
            *final(self) == closed_session(*old(self)),
    {
        let steps = CloseSteps { shutdown_worker: self.has_worker, finalize_writer: self.has_writer };
        self.has_worker = false;
        self.has_writer = false;
        self.file_path = None;
        self.sample_rate = 0;
        self.channels = 0;
        steps
    }

    /// A manual session was opened: its worker runs, its writer waits on `file_path`,
    /// and it does not record yet.
    pub fn opened_manual(&mut self, sample_rate: u32, channels: u16, file_path: String)
        ensures
            *final(self) == opened_manual_state(sample_rate, channels, file_path),
            final(self).sample_rate == sample_rate,
            final(self).channels == channels,
            final(self).file_path == Some(file_path),
    {
        self.has_worker = true;
        self.has_writer = true;
        self.is_recording = false;
        self.sample_rate = sample_rate;
        self.channels = channels;
        self.file_path = Some(file_path);
    }

    /// A voice activity session was opened: its worker runs; files are made per segment,
    /// so there is no writer and no file; it does not record yet.
    pub fn opened_vad(&mut self, sample_rate: u32, channels: u16)
        ensures
            *final(self) == opened_vad_state(sample_rate, channels),
            final(self).sample_rate == sample_rate,
            final(self).channels == channels,
            final(self).file_path is None,
    {
        self.has_worker = true;
        self.has_writer = false;
        self.is_recording = false;
        self.sample_rate = sample_rate;
        self.channels = channels;
        self.file_path = None;
    }

    /// Whether recording may be started: only with an open session.
    pub fn check_start(&self) -> (r: Result<(), SessionError>)
        ensures
            r is Ok <==> self.has_worker,
            r matches Err(e) ==> e == SessionError::NoSession,
    {
        if self.has_worker {
            Ok(())
        } else {
            Err(SessionError::NoSession)
        }
    }

    /// The worker confirmed that it records.
    pub fn confirm_started(&mut self)
        ensures
            *final(self) == with_recording(*old(self), true),
    {
        self.is_recording = true;
    }

    /// What stopping must do: notify the worker if one runs, finalize the writer if one exists.
    pub fn stop_steps(&self) -> (steps: StopSteps)
        ensures
            steps == (StopSteps {
                notify_worker: self.has_worker,
                finalize_writer: self.has_writer,
            }),
    {
        StopSteps { notify_worker: self.has_worker, finalize_writer: self.has_writer }
    }

    /// The worker confirmed that it stopped recording.
    pub fn confirm_stopped(&mut self)
        ensures
            *final(self) == with_recording(*old(self), false),
    {
        self.is_recording = false;
    }

    /// What a stopped recording reports: the format the finalized writer gives, or the
    /// session's own format when there is no writer; and the session's file.
    pub fn summary(&self, writer_format: Option<(u32, u16)>) -> (r: RecordingSummary)
        ensures
            match writer_format {
                Some((rate, ch)) => r.sample_rate == rate && r.channels == ch,
                None => r.sample_rate == self.sample_rate && r.channels == self.channels,
            },
            r.file_path == self.file_path,
    {
        let (sample_rate, channels) = match writer_format {
            Some((rate, ch)) => (rate, ch),
            None => (self.sample_rate, self.channels),
        };
        let file_path = match &self.file_path {
            Some(p) => Some(p.clone()),
            None => None,
        };
        RecordingSummary { sample_rate, channels, file_path }
    }

    /// The file that cancelling deletes, if the session has one.
    pub fn file_to_delete(&self) -> (r: Option<String>)
        ensures
            r == self.file_path,
    {
        match &self.file_path {
            Some(p) => Some(p.clone()),
            None => None,
        }
    }

    /// The id of the recording in progress: the stem of its file while recording,
    /// `None` otherwise.
    pub fn current_recording_id(&self) -> (r: Option<String>)
        ensures
            match r {
                Some(id) => recording_id_of(*self) == Some(id@),
                None => recording_id_of(*self) is None,
            },
    {
        if self.is_recording {
            match &self.file_path {
                Some(p) => file_stem(p.as_str()),
                None => None,
            }
        } else {
            None
        }
    }
}

/// A closed session reports no recording id, whatever it was doing.
pub proof fn lemma_closed_has_no_id(s: RecorderSession)
    ensures
        recording_id_of(closed_session(s)) is None,
{
}

/// A freshly opened session, manual or voice activity, is not recording.
pub proof fn lemma_opened_not_recording(sample_rate: u32, channels: u16, file_path: String)
    ensures
        recording_id_of(opened_manual_state(sample_rate, channels, file_path)) is None,
        recording_id_of(opened_vad_state(sample_rate, channels)) is None,
{
}

/// Once a manual session for `<id>.wav` records, its recording id is the stem of that file.
pub proof fn lemma_started_reports_file_stem(
    sample_rate: u32,
    channels: u16,
    file_path: String,
)
    ensures
        recording_id_of(with_recording(opened_manual_state(sample_rate, channels, file_path), true))
            == path_file_stem(file_path@),
{
}

/// A stopped recording reports no id.
pub proof fn lemma_stopped_has_no_id(s: RecorderSession)
    ensures
        recording_id_of(with_recording(s, false)) is None,
{
}

/// Starting is refused without a session, and allowed again after a new one is opened.
pub proof fn lemma_start_needs_session(s: RecorderSession, sample_rate: u32, channels: u16)
    ensures
        !closed_session(s).has_worker,
        opened_vad_state(sample_rate, channels).has_worker,
{
}

/// The recording id comes back: a manual session opened on the path `recording_file_path`
/// gives for a plain id reports, once recording, that very id.
pub proof fn lemma_recording_id_round_trip(
    id: Seq<char>,
    sample_rate: u32,
    channels: u16,
    file_path: String,
)
    requires
        plain_recording_id(id),
        path_file_stem(file_path@) == Some(id),
    ensures
        recording_id_of(with_recording(opened_manual_state(sample_rate, channels, file_path), true))
            == Some(id),
{
}

/// While it records, a manual session whose file has a stem reports a recording id.
pub proof fn lemma_recording_reports_some_id(sample_rate: u32, channels: u16, file_path: String)
    requires
        path_file_stem(file_path@) is Some,
    ensures
        recording_id_of(with_recording(opened_manual_state(sample_rate, channels, file_path), true))
            is Some,
{
}

/// A session keeps the format it was opened with through starting and stopping: its
/// sample rate and channel count are those given when it opened, whatever they are, so a
/// stopped voice activity session reports that format and no file.
pub proof fn lemma_session_keeps_format(sample_rate: u32, channels: u16, file_path: String)
    ensures
        opened_vad_state(sample_rate, channels).sample_rate == sample_rate,
        opened_vad_state(sample_rate, channels).channels == channels,
        with_recording(with_recording(opened_vad_state(sample_rate, channels), true), false).sample_rate
            == sample_rate,
        with_recording(with_recording(opened_vad_state(sample_rate, channels), true), false).channels
            == channels,
        with_recording(with_recording(opened_vad_state(sample_rate, channels), true), false).file_path
            is None,
        opened_manual_state(sample_rate, channels, file_path).sample_rate == sample_rate,
        opened_manual_state(sample_rate, channels, file_path).channels == channels,
        with_recording(
            with_recording(opened_manual_state(sample_rate, channels, file_path), true),
            false,
        ).channels == channels,
{
}

} // verus!
