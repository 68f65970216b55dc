//! Voice input bookkeeping: model-file validation, download locations and
//! the events streamed to the frontend.
use vstd::prelude::*;
use crate::text::{chars_of, contains, contains_str, ends_with, ends_with_str, push_str, starts_with, starts_with_str, string_of};

verus! {

broadcast use vstd::string::group_string_axioms;

/// Sample rate required by whisper.cpp.
pub const WHISPER_SAMPLE_RATE: u32 = 16_000;

/// Hard cap on a single push-to-talk recording, in seconds.
pub const MAX_RECORDING_SECS: u64 = 300;

/// Stream events emitted to the frontend during a record-and-transcribe
/// session.
#[derive(Clone, Debug)]
pub enum VoiceEvent {
    /// Capture has started.
    Listening,
    /// Capture has stopped; whisper is running.
    Transcribing,
    /// Final transcript (possibly empty for silence).
    Final(String),
    /// The user cancelled; no transcription was attempted.
    Cancelled,
    /// Recoverable failure surfaced as a user-facing message.
    Error(String),
}

/// Stream events emitted while a whisper model is downloaded.
#[derive(Clone, Debug)]
pub enum VoiceModelDownloadEvent {
    Status(String),
    Progress { total: u64, completed: u64 },
    Done,
    Cancelled,
    Error(String),
}

/// One installed whisper model file.
#[derive(Clone, Debug)]
pub struct InstalledWhisperModel {
    /// Filename on disk (e.g. `ggml-base.en-q5_1.bin`).
    pub filename: String,
    /// Size on disk in bytes.
    pub size: u64,
}

/// The verdict on a model filename: `None` when acceptable, otherwise the
/// error message.
pub open spec fn model_filename_error(name: Seq<char>) -> Option<Seq<char>> {
    if name.len() == 0 {
        Some("model filename is empty"@)
    } else if contains(name, "/"@) || contains(name, "\\"@) || contains(name, ".."@) {
        Some("model filename contains illegal characters"@)
    } else if !starts_with(name, "ggml-"@) || !ends_with(name, ".bin"@) {
        Some("model filename must start with 'ggml-' and end with '.bin'"@)
    } else {
        None
    }
}

/// Validates that a filename looks like a whisper.cpp ggml model
/// (`ggml-*.bin`) and contains no path separator or `..`, so nothing can
/// be written or read outside the models directory.
pub fn validate_model_filename(name: &str) -> (r: Result<(), String>)
    ensures
        r is Ok <==> model_filename_error(name@) is None,
        r matches Err(e) ==> model_filename_error(name@) == Some(e@),
{
    let v = chars_of(name);
    if v.len() == 0 {
        return Err(crate::text::owned("model filename is empty"));
    }
    if contains_str(&v, "/") || contains_str(&v, "\\") || contains_str(&v, "..") {
        return Err(crate::text::owned("model filename contains illegal characters"));
    }
    if !starts_with_str(&v, "ggml-") || !ends_with_str(&v, ".bin") {
        return Err(crate::text::owned("model filename must start with 'ggml-' and end with '.bin'"));
    }
    Ok(())
}

/// Base URL of the public whisper.cpp model repository.
pub open spec fn whisper_model_base_url() -> Seq<char> {
    "https://huggingface.co/ggerganov/whisper.cpp/resolve/main"@
}

/// Download URL of a model file.
pub fn whisper_model_url(filename: &str) -> (r: String)
    ensures
        r@ == whisper_model_base_url() + "/"@ + filename@,
{
    let mut out: Vec<char> = Vec::new();
    push_str(&mut out, "https://huggingface.co/ggerganov/whisper.cpp/resolve/main");
    push_str(&mut out, "/");
    push_str(&mut out, filename);
    string_of(&out)
}

/// Name of the partial file a download streams into before it is renamed.
pub fn partial_download_name(filename: &str) -> (r: String)
    ensures
        r@ == filename@ + ".part"@,
{
    let mut out: Vec<char> = Vec::new();
    push_str(&mut out, filename);
    push_str(&mut out, ".part");
    string_of(&out)
}

/// The progress event after a chunk of `chunk_len` bytes is written:
/// the bytes received so far and the expected total.
pub fn download_progress(total: u64, completed: u64, chunk_len: usize) -> (r: (u64, VoiceModelDownloadEvent))
    requires
        completed + chunk_len <= u64::MAX,
    ensures
        r.0 == completed + chunk_len,
        r.1 == (VoiceModelDownloadEvent::Progress { total, completed: r.0 }),
{
    let c = completed + chunk_len as u64;
    (c, VoiceModelDownloadEvent::Progress { total, completed: c })
}

/// The events that open a download: an installed model is reported and
/// the download is over; otherwise the download is announced.
pub fn download_start_events(already_installed: bool, filename: &str) -> (r: Vec<VoiceModelDownloadEvent>)
    ensures
        already_installed ==> r@.len() == 2 && (r@[0] matches VoiceModelDownloadEvent::Status(m) && m@
            == "Already installed."@) && r@[1] == VoiceModelDownloadEvent::Done,
        !already_installed ==> r@.len() == 1 && (r@[0] matches VoiceModelDownloadEvent::Status(m) && m@
            == "Downloading "@ + filename@ + "…"@),
{
    let mut r: Vec<VoiceModelDownloadEvent> = Vec::new();
    if already_installed {
        r.push(VoiceModelDownloadEvent::Status(crate::text::owned("Already installed.")));
        r.push(VoiceModelDownloadEvent::Done);
    } else {
        let mut out: Vec<char> = Vec::new();
        push_str(&mut out, "Downloading ");
        push_str(&mut out, filename);
        push_str(&mut out, "…");
        r.push(VoiceModelDownloadEvent::Status(string_of(&out)));
    }
    r
}

/// The ways a model download can fail.
#[derive(Clone, Copy, Debug, PartialEq, Eq, Structural)]
pub enum DownloadFailure {
    /// The request could not be sent.
    Unreachable,
    /// The server answered with a non-success status.
    HttpStatus(u16),
    /// The partial file could not be created.
    OpenFile,
    /// No bytes arrived within the chunk timeout.
    Stalled,
    /// Writing a chunk to disk failed.
    DiskWrite,
    /// The body stream failed.
    Network,
    /// Flushing the partial file failed.
    Flush,
    /// Renaming the partial file into place failed.
    Finalize,
}

/// The chunk timeout of a model download, in seconds.
pub const DOWNLOAD_CHUNK_TIMEOUT_SECS: u64 = 60;

/// The message reported for a failed download (`detail` is the
/// underlying error's text, where there is one).
pub open spec fn download_failure_message(f: DownloadFailure, detail: Seq<char>) -> Seq<char> {
    match f {
        DownloadFailure::Unreachable => "Could not reach HuggingFace: "@ + detail,
        DownloadFailure::HttpStatus(s) => "HuggingFace returned HTTP "@ + crate::text::decimal(s as nat),
        DownloadFailure::OpenFile => "Could not open destination file: "@ + detail,
        DownloadFailure::Stalled => "Download stalled: no progress for "@ + crate::text::decimal(
            DOWNLOAD_CHUNK_TIMEOUT_SECS as nat,
        ) + "s."@,
        DownloadFailure::DiskWrite => "Disk write failed: "@ + detail,
        DownloadFailure::Network => "Network error during download: "@ + detail,
        DownloadFailure::Flush => "Could not flush: "@ + detail,
        DownloadFailure::Finalize => "Could not finalize file: "@ + detail,
    }
}

/// Whether the partial file has to be removed after this failure: every
/// failure after the partial file was created.
pub open spec fn failure_removes_partial(f: DownloadFailure) -> bool {
    match f {
        DownloadFailure::Unreachable | DownloadFailure::HttpStatus(_) | DownloadFailure::OpenFile => false,
        _ => true,
    }
}

/// The error event of a failed download and whether the partial file is
/// removed.
pub fn download_failure(f: DownloadFailure, detail: &str) -> (r: (VoiceModelDownloadEvent, bool))
    ensures
        r.0 matches VoiceModelDownloadEvent::Error(m) && m@ == download_failure_message(f, detail@),
        r.1 == failure_removes_partial(f),
{
    let mut out: Vec<char> = Vec::new();
    let removes = match f {
        DownloadFailure::Unreachable => {
            push_str(&mut out, "Could not reach HuggingFace: ");
            push_str(&mut out, detail);
            false
        },
        DownloadFailure::HttpStatus(s) => {
            push_str(&mut out, "HuggingFace returned HTTP ");
            let d = crate::text::decimal_exec(s as u64);
            crate::text::push_chars(&mut out, &d);
            false
        },
        DownloadFailure::OpenFile => {
            push_str(&mut out, "Could not open destination file: ");
            push_str(&mut out, detail);
            false
        },
        DownloadFailure::Stalled => {
            push_str(&mut out, "Download stalled: no progress for ");
            let d = crate::text::decimal_exec(DOWNLOAD_CHUNK_TIMEOUT_SECS);
            crate::text::push_chars(&mut out, &d);
            push_str(&mut out, "s.");
            true
        },
        DownloadFailure::DiskWrite => {
            push_str(&mut out, "Disk write failed: ");
            push_str(&mut out, detail);
            true
        },
        DownloadFailure::Network => {
            push_str(&mut out, "Network error during download: ");
            push_str(&mut out, detail);
            true
        },
        DownloadFailure::Flush => {
            push_str(&mut out, "Could not flush: ");
            push_str(&mut out, detail);
            true
        },
        DownloadFailure::Finalize => {
            push_str(&mut out, "Could not finalize file: ");
            push_str(&mut out, detail);
            true
        },
    };
    (VoiceModelDownloadEvent::Error(string_of(&out)), removes)
}

/// The error of `voice_record` when the chosen model file is missing.
pub fn model_not_installed_error(filename: &str) -> (r: String)
    ensures
        r@ == "Voice model not installed: "@ + filename@ + ". Install it from Settings → Voice."@,
{
    let mut out: Vec<char> = Vec::new();
    push_str(&mut out, "Voice model not installed: ");
    push_str(&mut out, filename);
    push_str(&mut out, ". Install it from Settings → Voice.");
    string_of(&out)
}

/// The error of `delete_whisper_model` when removing the file fails.
pub fn delete_model_error(filename: &str, detail: &str) -> (r: String)
    ensures
        r@ == "could not delete "@ + filename@ + ": "@ + detail@,
{
    let mut out: Vec<char> = Vec::new();
    push_str(&mut out, "could not delete ");
    push_str(&mut out, filename);
    push_str(&mut out, ": ");
    push_str(&mut out, detail);
    string_of(&out)
}

// ─── Installed models ─────────────────────────────────────────────────────

/// The view of an installed model: filename and size.
pub open spec fn model_view(m: InstalledWhisperModel) -> (Seq<char>, u64) {
    (m.filename@, m.size)
}

/// The files of the models directory that are model files, in order.
pub open spec fn model_files(entries: Seq<(Seq<char>, u64)>) -> Seq<(Seq<char>, u64)>
    decreases entries.len(),
{
    if entries.len() == 0 {
        entries
    } else {
        model_files(entries.drop_last()) + if model_filename_error(entries.last().0) is None {
            seq![entries.last()]
        } else {
            Seq::<(Seq<char>, u64)>::empty()
        }
    }
}

/// Where a model goes in a list sorted by filename: before the first
/// entry with a greater filename.
pub open spec fn model_insertion_point(s: Seq<(Seq<char>, u64)>, m: (Seq<char>, u64)) -> int
    decreases s.len(),
{
    if s.len() == 0 {
        0
    } else if crate::tools::text_lt(m.0, s[0].0) {
        0
    } else {
        1 + model_insertion_point(s.skip(1), m)
    }
}

/// The models sorted by filename (stable).
pub open spec fn sort_models(s: Seq<(Seq<char>, u64)>) -> Seq<(Seq<char>, u64)>
    decreases s.len(),
{
    if s.len() == 0 {
        s
    } else {
        let rest = sort_models(s.drop_last());
        rest.insert(model_insertion_point(rest, s.last()), s.last())
    }
}

fn model_position(sorted: &Vec<InstalledWhisperModel>, name: &Vec<char>, Ghost(m): Ghost<(Seq<char>, u64)>) -> (j: usize)
    requires
        name@ == m.0,
    ensures
        j == model_insertion_point(sorted@.map_values(|x: InstalledWhisperModel| model_view(x)), m),
        j <= sorted.len(),
{
    let ghost sv = sorted@.map_values(|x: InstalledWhisperModel| model_view(x));
    let mut j: usize = 0;
    assert(sv.skip(0) =~= sv);
    while j < sorted.len()
        invariant
            j <= sorted.len(),
            sv == sorted@.map_values(|x: InstalledWhisperModel| model_view(x)),
            name@ == m.0,
            model_insertion_point(sv, m) == j + model_insertion_point(sv.skip(j as int), m),
        decreases sorted.len() - j,
    {
        let other = chars_of(sorted[j].filename.as_str());
        assert(sv.skip(j as int)[0] == sv[j as int]);
        if crate::tools::text_lt_exec(name, &other) {
            return j;
        }
        assert(sv.skip(j as int).skip(1) =~= sv.skip(j + 1));
        j = j + 1;
    }
    j
}

/// The installed models among a directory's (filename, size) entries:
/// the model files only, sorted by filename.
pub fn installed_models(entries: &Vec<(String, u64)>) -> (r: Vec<InstalledWhisperModel>)
    ensures
        r@.map_values(|m: InstalledWhisperModel| model_view(m)) == sort_models(
            model_files(entries@.map_values(|e: (String, u64)| (e.0@, e.1))),
        ),
{
    let ghost ev = entries@.map_values(|e: (String, u64)| (e.0@, e.1));
    let mut sorted: Vec<InstalledWhisperModel> = Vec::new();
    let mut i: usize = 0;
    while i < entries.len()
        invariant
            i <= entries.len(),
            ev == entries@.map_values(|e: (String, u64)| (e.0@, e.1)),
            sorted@.map_values(|m: InstalledWhisperModel| model_view(m)) == sort_models(
                model_files(ev.take(i as int)),
            ),
        decreases entries.len() - i,
    {
        let ghost before = sorted@.map_values(|m: InstalledWhisperModel| model_view(m));
        assert(ev.take(i + 1).drop_last() =~= ev.take(i as int));
        assert(ev.take(i + 1).last() == ev[i as int]);
        if validate_model_filename(entries[i].0.as_str()).is_ok() {
            let name = chars_of(entries[i].0.as_str());
            let ghost mv = (entries@[i as int].0@, entries@[i as int].1);
            let j = model_position(&sorted, &name, Ghost(mv));
            sorted.insert(j, InstalledWhisperModel { filename: entries[i].0.clone(), size: entries[i].1 });
            assert(model_files(ev.take(i + 1)) =~= model_files(ev.take(i as int)).push(mv));
            assert(sort_models(model_files(ev.take(i + 1))).len() >= 0);
            assert(model_files(ev.take(i + 1)).drop_last() =~= model_files(ev.take(i as int)));
            assert(sorted@.map_values(|m: InstalledWhisperModel| model_view(m)) =~= before.insert(j as int, mv));
        } else {
            assert(model_files(ev.take(i + 1)) =~= model_files(ev.take(i as int)));
        }
        i = i + 1;
    }
    assert(ev.take(entries.len() as int) =~= ev);
    sorted
}

// ─── Recording session ────────────────────────────────────────────────────

/// How a recording ends.
#[derive(Clone, Copy, Debug, PartialEq, Eq, Structural)]
pub enum FinishMode {
    /// Stop capture and run whisper on the captured audio.
    Finalize,
    /// Stop capture and discard.
    Cancel,
}

/// The finish signal of a recording: the frontend's choice, or `Cancel`
/// when the signal's sender is gone.
pub fn finish_mode(received: Option<FinishMode>) -> (m: FinishMode)
    ensures
        m == match received {
            Some(x) => x,
            None => FinishMode::Cancel,
        },
{
    match received {
        Some(x) => x,
        None => FinishMode::Cancel,
    }
}

/// What happens once capture stops.
#[derive(Clone, Debug)]
pub enum RecordingEnd {
    /// Emit this event and stop.
    Emit(VoiceEvent),
    /// Emit `Transcribing`, run whisper, then emit the transcript.
    Transcribe,
}

/// After capture: a cancelled recording emits `Cancelled`; an empty one
/// an empty transcript; otherwise the audio is transcribed.
pub fn recording_end(mode: FinishMode, captured_samples: usize) -> (r: RecordingEnd)
    ensures
        mode == FinishMode::Cancel ==> r matches RecordingEnd::Emit(VoiceEvent::Cancelled),
        mode == FinishMode::Finalize && captured_samples == 0 ==> (r matches RecordingEnd::Emit(
            VoiceEvent::Final(t),
        ) && t@.len() == 0),
        mode == FinishMode::Finalize && captured_samples > 0 ==> r is Transcribe,
{
    match mode {
        FinishMode::Cancel => RecordingEnd::Emit(VoiceEvent::Cancelled),
        FinishMode::Finalize => if captured_samples == 0 {
            RecordingEnd::Emit(VoiceEvent::Final(String::new()))
        } else {
            RecordingEnd::Transcribe
        },
    }
}

/// The transcript built from whisper's segments: each segment trimmed,
/// blank ones skipped, the rest joined by single spaces.
pub open spec fn transcript_spec(segments: Seq<Seq<char>>) -> Seq<char>
    decreases segments.len(),
{
    if segments.len() == 0 {
        Seq::<char>::empty()
    } else {
        let rest = transcript_spec(segments.drop_last());
        let t = crate::text::trim(segments.last());
        if t.len() == 0 {
            rest
        } else if rest.len() == 0 {
            t
        } else {
            rest + " "@ + t
        }
    }
}

/// Joins whisper's segment texts into the transcript.
pub fn transcript_from_segments(segments: &Vec<String>) -> (r: String)
    ensures
        r@ == crate::text::trim(transcript_spec(crate::text::strings_view(segments@))),
{
    let mut out: Vec<char> = Vec::new();
    let mut i: usize = 0;
    while i < segments.len()
        invariant
            i <= segments@.len(),
            out@ == transcript_spec(crate::text::strings_view(segments@.take(i as int))),
        decreases segments@.len() - i,
    {
        let t = crate::text::trim_exec(&chars_of(segments[i].as_str()));
        let ghost before = out@;
        if t.len() > 0 {
            if out.len() > 0 {
                out.push(' ');
            }
            crate::text::push_chars(&mut out, &t);
        }
        proof {
            let sv = crate::text::strings_view(segments@.take(i + 1));
            assert(sv.drop_last() =~= crate::text::strings_view(segments@.take(i as int)));
            assert(sv.last() == segments@[i as int]@);
            if t@.len() > 0 && before.len() > 0 {
                reveal_strlit(" ");
                assert(out@ =~= before + " "@ + t@);
            }
        }
        i = i + 1;
    }
    assert(segments@.take(segments@.len() as int) =~= segments@);
    let r = crate::text::trim_exec(&out);
    string_of(&r)
}

/// A parked recording session.
pub struct VoiceSession<F> {
    /// Sender that wakes the recording loop with the finish signal.
    pub finish_tx: Option<F>,
}

/// The finish sender a `take_finish` hands out of `session`.
pub open spec fn taken_finish<F>(session: Option<VoiceSession<F>>) -> Option<F> {
    match session {
        Some(s) => s.finish_tx,
        None => None,
    }
}

/// The parked session after a `take_finish`: still parked, without its
/// sender.
pub open spec fn session_after_take<F>(session: Option<VoiceSession<F>>) -> Option<VoiceSession<F>> {
    match session {
        Some(s) => Some(VoiceSession { finish_tx: None }),
        None => None,
    }
}

/// The voice state: the parked recording session, if any, and the
/// cancellation handle of an in-flight model download, if any.
pub struct VoiceState<F, T> {
    pub session: Option<VoiceSession<F>>,
    pub download_cancel: Option<T>,
}

impl<F, T> VoiceState<F, T> {
    /// No session, no download.
    pub fn new() -> (s: Self)
        ensures
            s.session is None,
            s.download_cancel is None,
    {
        VoiceState { session: None, download_cancel: None }
    }

    /// Parks `session`, handing back the one it replaces so its capture
    /// can be told to stop.
    pub fn install(&mut self, session: VoiceSession<F>) -> (prev: Option<VoiceSession<F>>)
        ensures
            final(self).session == Some(session),
            prev == old(self).session,
            final(self).download_cancel == old(self).download_cancel,
    {
        let mut slot = Some(session);
        std::mem::swap(&mut slot, &mut self.session);
        slot
    }

    /// Takes the parked session's finish sender, if there is one; the
    /// session stays parked without it.
    pub fn take_finish(&mut self) -> (tx: Option<F>)
        ensures
            tx == taken_finish(old(self).session),
            final(self).session == session_after_take(old(self).session),
            final(self).download_cancel == old(self).download_cancel,
    {
        match &mut self.session {
            Some(s) => {
                let mut tx = None;
                std::mem::swap(&mut tx, &mut s.finish_tx);
                tx
            },
            None => None,
        }
    }

    /// Drops the parked session.
    pub fn clear(&mut self)
        ensures
            final(self).session is None,
            final(self).download_cancel == old(self).download_cancel,
    {
        self.session = None;
    }

    /// Stores the cancellation handle of a new download.
    pub fn set_download_cancel(&mut self, token: T)
        ensures
            final(self).download_cancel == Some(token),
            final(self).session == old(self).session,
    {
        self.download_cancel = Some(token);
    }

    /// Takes the cancellation handle of the running download, if any.
    pub fn take_download_cancel(&mut self) -> (t: Option<T>)
        ensures
            t == old(self).download_cancel,
            final(self).download_cancel is None,
            final(self).session == old(self).session,
    {
        let mut slot = None;
        std::mem::swap(&mut slot, &mut self.download_cancel);
        slot
    }
}

/// A finish sender is handed out at most once: after one `take_finish`,
/// the next finds nothing until a new session is installed.
pub proof fn law_finish_taken_once<F>(session: Option<VoiceSession<F>>)
    ensures
        taken_finish(session_after_take(session)) is None,
        session is Some ==> session_after_take(session) is Some,
{
}

} // verus!
