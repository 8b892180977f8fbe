//! The wf-recorder command line, the recorder's status machine driven by
//! the messages of the worker that watches the process, and the ffmpeg
//! post-processing plan.

use vstd::prelude::*;
use crate::audio::AudioBackend;
use crate::config::{
    ensure_extension, file_name_for, with_extension, AudioFormat, RecordingConfig,
    RecordingConfigView, VideoFormat,
};
use crate::errors::AppError;
use crate::text::{
    append_chars, decimal, decimal_chars, join, join_path, joined_path, signed_decimal,
    signed_decimal_chars, views, replace_ext, ext_dot, rfind, rfind_before, ascii_lower_char,
    lemma_rfind_before_skip,
};

verus! {

/// `std::time::Instant`, carried through as an opaque value.
#[verifier::external_type_specification]
#[verifier::external_body]
pub struct ExInstant(std::time::Instant);

// ---------------------------------------------------------------------------
// Status
// ---------------------------------------------------------------------------

/// Recording status as the UI sees it.
#[derive(Debug, PartialEq, Eq)]
pub enum RecorderStatus {
    Idle,
    Recording { started_at: std::time::Instant, output_path: String },
    Stopping,
    Failed { message: String },
}

pub enum StatusView {
    Idle,
    Recording { started_at: std::time::Instant, output_path: Seq<char> },
    Stopping,
    Failed { message: Seq<char> },
}

impl View for RecorderStatus {
    type V = StatusView;

    open spec fn view(&self) -> StatusView {
        match self {
            RecorderStatus::Idle => StatusView::Idle,
            RecorderStatus::Recording { started_at, output_path } => StatusView::Recording {
                started_at: *started_at,
                output_path: output_path@,
            },
            RecorderStatus::Stopping => StatusView::Stopping,
            RecorderStatus::Failed { message } => StatusView::Failed { message: message@ },
        }
    }
}

pub open spec fn status_label_text(s: StatusView) -> Seq<char> {
    match s {
        StatusView::Idle => "Inactivo"@,
        StatusView::Recording { .. } => "Grabando"@,
        StatusView::Stopping => "Deteniendo…"@,
        StatusView::Failed { message } => "Error: "@ + message,
    }
}

impl RecorderStatus {
    /// Recording, or stopping a recording.
    pub fn is_recording(&self) -> (r: bool)
        ensures
            r == (self is Recording || self is Stopping),
    {
        match self {
            RecorderStatus::Recording { .. } | RecorderStatus::Stopping => true,
            _ => false,
        }
    }

    /// Short label for the status bar.
    pub fn label(&self) -> (r: String)
        ensures
            r@ == status_label_text(self@),
    {
        match self {
            RecorderStatus::Idle => String::from_str("Inactivo"),
            RecorderStatus::Recording { .. } => String::from_str("Grabando"),
            RecorderStatus::Stopping => String::from_str("Deteniendo…"),
            RecorderStatus::Failed { message } => {
                let mut r = String::from_str("Error: ");
                r.append(message.as_str());
                r
            },
        }
    }

    /// A copy with the same value.
    pub fn duplicate(&self) -> (r: RecorderStatus)
        ensures
            r@ == self@,
    {
        match self {
            RecorderStatus::Idle => RecorderStatus::Idle,
            RecorderStatus::Recording { started_at, output_path } => RecorderStatus::Recording {
                started_at: *started_at,
                output_path: output_path.clone(),
            },
            RecorderStatus::Stopping => RecorderStatus::Stopping,
            RecorderStatus::Failed { message } => RecorderStatus::Failed {
                message: message.clone(),
            },
        }
    }
}

// ---------------------------------------------------------------------------
// Worker messages and the status machine
// ---------------------------------------------------------------------------

/// A message from the thread that watches wf-recorder.
pub enum WorkerMsg {
    /// The process runs and writes to this path.
    Started(String),
    /// One line of wf-recorder's standard error.
    StderrLine(String),
    /// The process exited, with its exit code if it had one.
    Exited { code: Option<i32> },
    /// Waiting for the process failed.
    IoError(String),
}

pub enum WorkerMsgView {
    Started(Seq<char>),
    StderrLine(Seq<char>),
    Exited { code: Option<i32> },
    IoError(Seq<char>),
}

impl View for WorkerMsg {
    type V = WorkerMsgView;

    open spec fn view(&self) -> WorkerMsgView {
        match self {
            WorkerMsg::Started(p) => WorkerMsgView::Started(p@),
            WorkerMsg::StderrLine(l) => WorkerMsgView::StderrLine(l@),
            WorkerMsg::Exited { code } => WorkerMsgView::Exited { code: *code },
            WorkerMsg::IoError(e) => WorkerMsgView::IoError(e@),
        }
    }
}

/// How many lines of standard error are kept.
pub const STDERR_KEEP: usize = 500;

/// The recorder's state between two polls.
pub struct RecorderState {
    /// Where the recording is written.
    pub output_path: String,
    last_status: RecorderStatus,
    stderr_lines: Vec<String>,
    stop_requested: bool,
}

pub struct RecorderStateView {
    pub output_path: Seq<char>,
    pub last_status: StatusView,
    pub stderr: Seq<Seq<char>>,
    pub stop_requested: bool,
}

impl View for RecorderState {
    type V = RecorderStateView;

    closed spec fn view(&self) -> RecorderStateView {
        RecorderStateView {
            output_path: self.output_path@,
            last_status: self.last_status@,
            stderr: views(self.stderr_lines@),
            stop_requested: self.stop_requested,
        }
    }
}

/// The last `n` lines (all of them when there are fewer).
pub open spec fn last_lines(s: Seq<Seq<char>>, n: int) -> Seq<Seq<char>> {
    if s.len() <= n {
        s
    } else {
        s.skip(s.len() - n)
    }
}

/// The failure message for an exit that nobody asked for: exit code 0
/// is "unexpected", another code is reported with the last five stderr
/// lines when they are not empty, and no code means the process was
/// killed.
pub open spec fn exit_message(stderr: Seq<Seq<char>>, code: Option<i32>) -> Seq<char> {
    let tail = join(last_lines(stderr, 5), "\n"@);
    match code {
        Some(c) => if c == 0 {
            "wf-recorder exited unexpectedly"@
        } else if tail.len() == 0 {
            "wf-recorder exited with code "@ + signed_decimal(c as int)
        } else {
            "wf-recorder exited with code "@ + signed_decimal(c as int) + ":\n\n"@ + tail
        },
        None => "wf-recorder was killed"@,
    }
}

/// The stderr lines kept before one more is added: the oldest is dropped
/// once the limit is reached.
pub open spec fn make_room(lines: Seq<Seq<char>>) -> Seq<Seq<char>> {
    if lines.len() >= STDERR_KEEP {
        lines.drop_first()
    } else {
        lines
    }
}

/// One message applied to the state: the new state and the status
/// transition it causes, if any.
pub open spec fn step(s: RecorderStateView, m: WorkerMsgView, now: std::time::Instant) -> (
    RecorderStateView,
    Option<StatusView>,
) {
    match m {
        WorkerMsgView::Started(p) => (
            RecorderStateView { output_path: p, ..s },
            Some(StatusView::Recording { started_at: now, output_path: p }),
        ),
        WorkerMsgView::StderrLine(l) => (
            RecorderStateView { stderr: make_room(s.stderr).push(l), ..s },
            None,
        ),
        WorkerMsgView::Exited { code } => (
            s,
            Some(
                if s.stop_requested {
                    StatusView::Idle
                } else {
                    StatusView::Failed { message: exit_message(s.stderr, code) }
                },
            ),
        ),
        WorkerMsgView::IoError(e) => (s, Some(StatusView::Failed { message: e })),
    }
}

/// The messages applied in order; the transition reported is the last one
/// any message caused (or `found` when none did).
pub open spec fn apply_all(
    s: RecorderStateView,
    msgs: Seq<WorkerMsgView>,
    now: std::time::Instant,
    found: Option<StatusView>,
) -> (RecorderStateView, Option<StatusView>)
    decreases msgs.len(),
{
    if msgs.len() == 0 {
        (s, found)
    } else {
        let (s2, t) = step(s, msgs[0], now);
        apply_all(s2, msgs.drop_first(), now, if t is Some { t } else { found })
    }
}

/// The state after a poll and what the poll reports: the messages
/// applied, the last transition remembered as the current status and
/// reported; without a transition the current status is reported while the
/// worker still runs, and nothing once it has finished.
pub open spec fn polled(
    s: RecorderStateView,
    msgs: Seq<WorkerMsgView>,
    now: std::time::Instant,
    worker_finished: bool,
) -> (RecorderStateView, Option<StatusView>) {
    let (s2, t) = apply_all(s, msgs, now, None);
    match t {
        Some(st) => (RecorderStateView { last_status: st, ..s2 }, t),
        None => (s2, if worker_finished {
            None
        } else {
            Some(s2.last_status)
        }),
    }
}

pub open spec fn msg_views(v: Seq<WorkerMsg>) -> Seq<WorkerMsgView> {
    v.map_values(|m: WorkerMsg| m@)
}

/// `parts` joined with newlines.
fn join_newlines(parts: &[String]) -> (r: String)
    ensures
        r@ == join(views(parts@), "\n"@),
{
    let mut r = String::new();
    let mut i: usize = 0;
    while i < parts.len()
        invariant
            i <= parts@.len(),
            r@ == join(views(parts@).take(i as int), "\n"@),
        decreases parts.len() - i,
    {
        let ghost before = r@;
        if i > 0 {
            r.append("\n");
        }
        r.append(parts[i].as_str());
        proof {
            let t = views(parts@).take(i + 1);
            assert(t.drop_last() =~= views(parts@).take(i as int));
            assert(t.last() == parts@[i as int]@);
            if i == 0 {
                assert(before =~= seq![]);
                assert(r@ =~= t[0]);
            }
        }
        i = i + 1;
    }
    assert(views(parts@).take(parts@.len() as int) =~= views(parts@));
    r
}

impl RecorderState {
    /// The state right after wf-recorder was spawned writing to
    /// `output_path` at time `now`.
    pub fn new(output_path: String, now: std::time::Instant) -> (r: RecorderState)
        ensures
            r@ == (RecorderStateView {
                output_path: output_path@,
                last_status: StatusView::Recording { started_at: now, output_path: output_path@ },
                stderr: seq![],
                stop_requested: false,
            }),
    {
        let status = RecorderStatus::Recording { started_at: now, output_path: output_path.clone() };
        let r = RecorderState {
            output_path,
            last_status: status,
            stderr_lines: Vec::new(),
            stop_requested: false,
        };
        assert(views(r.stderr_lines@) =~= seq![]);
        r
    }

    /// Latest known status.
    pub fn status(&self) -> (r: RecorderStatus)
        ensures
            r@ == self@.last_status,
    {
        self.last_status.duplicate()
    }

    /// Captured stderr, oldest first.
    pub fn stderr(&self) -> (r: &[String])
        ensures
            views(r@) == self@.stderr,
    {
        self.stderr_lines.as_slice()
    }

    /// Whether a stop was asked for.
    pub fn stop_requested(&self) -> (r: bool)
        ensures
            r == self@.stop_requested,
    {
        self.stop_requested
    }

    /// Note that the user asked to stop: the next exit is a clean one.
    pub fn request_stop(&mut self)
        ensures
            final(self)@ == (RecorderStateView { stop_requested: true, ..old(self)@ }),
    {
        self.stop_requested = true;
    }

    /// The failure message for an exit with `code` that nobody asked for.
    fn exit_failure(&self, code: Option<i32>) -> (r: String)
        ensures
            r@ == exit_message(self@.stderr, code),
    {
        match code {
            Some(c) => {
                if c == 0 {
                    String::from_str("wf-recorder exited unexpectedly")
                } else {
                    let n = self.stderr_lines.len();
                    let from = if n <= 5 {
                        0
                    } else {
                        n - 5
                    };
                    let tail_lines = self.stderr_lines.as_slice();
                    let tail = join_newlines(slice_tail(tail_lines, from).as_slice());
                    proof {
                        let v = views(self.stderr_lines@);
                        assert(last_lines(v, 5) =~= views(self.stderr_lines@.skip(from as int)));
                        assert(views(self.stderr_lines@.skip(from as int)) =~= views(
                            tail_lines@.skip(from as int),
                        ));
                    }
                    let mut r = String::from_str("wf-recorder exited with code ");
                    let digits = signed_decimal_chars(c as i64);
                    append_chars(&mut r, &digits);
                    if tail.unicode_len() == 0 {
                        r
                    } else {
                        r.append(":\n\n");
                        r.append(tail.as_str());
                        r
                    }
                }
            },
            None => String::from_str("wf-recorder was killed"),
        }
    }

    /// Apply one message; returns the transition it causes.
    fn apply(&mut self, m: WorkerMsg, now: std::time::Instant) -> (r: Option<RecorderStatus>)
        ensures
            (final(self)@, match r {
                Some(st) => Some(st@),
                None => None,
            }) == step(old(self)@, m@, now),
            final(self)@.last_status == old(self)@.last_status,
    {
        match m {
            WorkerMsg::Started(p) => {
                self.output_path = p.clone();
                Some(RecorderStatus::Recording { started_at: now, output_path: p })
            },
            WorkerMsg::StderrLine(l) => {
                let ghost before = views(self.stderr_lines@);
                if self.stderr_lines.len() >= STDERR_KEEP {
                    self.stderr_lines.remove(0);
                }
                assert(views(self.stderr_lines@) =~= make_room(before));
                let ghost mid = self.stderr_lines@;
                self.stderr_lines.push(l);
                assert(views(self.stderr_lines@) =~= views(mid).push(l@));
                None
            },
            WorkerMsg::Exited { code } => {
                if self.stop_requested {
                    Some(RecorderStatus::Idle)
                } else {
                    let message = self.exit_failure(code);
                    Some(RecorderStatus::Failed { message })
                }
            },
            WorkerMsg::IoError(e) => Some(RecorderStatus::Failed { message: e }),
        }
    }

    /// Apply the pending messages in order. Returns the last status
    /// transition, which also becomes the current status; without one, the
    /// current status while the worker runs, and `None` once it has
    /// finished (`worker_finished`: the worker is gone and `msgs` were the
    /// last of its messages).
    pub fn poll(&mut self, msgs: Vec<WorkerMsg>, now: std::time::Instant, worker_finished: bool) -> (r:
        Option<RecorderStatus>)
        ensures
            (final(self)@, match r {
                Some(st) => Some(st@),
                None => None,
            }) == polled(old(self)@, msg_views(msgs@), now, worker_finished),
            old(self)@.stderr.len() <= STDERR_KEEP ==> final(self)@.stderr.len() <= STDERR_KEEP,
    {
        let ghost orig = msg_views(msgs@);
        let ghost start = self@;
        let mut rest = msgs;
        let mut found: Option<RecorderStatus> = None;
        let n = rest.len();
        let mut i: usize = 0;
        assert(msg_views(rest@) =~= orig.skip(0));
        while i < n
            invariant
                i <= n,
                n == orig.len(),
                rest@.len() == n - i,
                msg_views(rest@) == orig.skip(i as int),
                self@.last_status == start.last_status,
                apply_all(self@, orig.skip(i as int), now, match found {
                    Some(st) => Some(st@),
                    None => None,
                }) == apply_all(start, orig, now, None),
                start.stderr.len() <= STDERR_KEEP ==> self@.stderr.len() <= STDERR_KEEP,
            decreases n - i,
        {
            let ghost before_rest = rest@;
            let m = rest.remove(0);
            assert(m@ == orig[i as int]) by {
                assert(msg_views(before_rest)[0] == m@);
            }
            assert(msg_views(rest@) =~= orig.skip(i + 1)) by {
                assert(msg_views(before_rest).skip(1) =~= msg_views(rest@));
            }
            assert(orig.skip(i as int).drop_first() =~= orig.skip(i + 1));
            let t = self.apply(m, now);
            match t {
                Some(st) => {
                    found = Some(st);
                },
                None => {},
            }
            i = i + 1;
        }
        match found {
            Some(st) => {
                self.last_status = st.duplicate();
                Some(st)
            },
            None => {
                if worker_finished {
                    None
                } else {
                    Some(self.last_status.duplicate())
                }
            },
        }
    }
}

/// A copy of `v[from..]`.
fn slice_tail(v: &[String], from: usize) -> (r: Vec<String>)
    requires
        from <= v@.len(),
    ensures
        views(r@) == views(v@.skip(from as int)),
{
    let mut r: Vec<String> = Vec::new();
    let mut i: usize = from;
    while i < v.len()
        invariant
            from <= i <= v@.len(),
            r@.len() == i - from,
            forall|k: int| 0 <= k < r@.len() ==> r@[k]@ == v@[from + k]@,
        decreases v.len() - i,
    {
        r.push(v[i].clone());
        i = i + 1;
    }
    assert(views(r@) =~= views(v@.skip(from as int)));
    r
}

// ---------------------------------------------------------------------------
// Signals
// ---------------------------------------------------------------------------

/// SIGINT, which makes wf-recorder finish the file cleanly.
pub fn libc_signal_int() -> (r: i32)
    ensures
        r == 2,
{
    2
}

/// The signal that toggles pausing: SIGCONT (18) resumes a paused
/// recording, SIGSTOP (19) pauses a running one.
pub fn pause_toggle_signal(paused: bool) -> (r: i32)
    ensures
        r == (if paused {
            18i32
        } else {
            19i32
        }),
{
    if paused {
        18
    } else {
        19
    }
}

// ---------------------------------------------------------------------------
// The wf-recorder command line
// ---------------------------------------------------------------------------

/// Encoder and pixel format wf-recorder uses for each container; GIF is
/// recorded as H.264 first and converted afterwards.
pub open spec fn codec_pair(fmt: VideoFormat) -> (Seq<char>, Seq<char>) {
    match fmt {
        VideoFormat::Webm => ("libvpx-vp9"@, "yuv420p"@),
        _ => ("libx264"@, "yuv420p"@),
    }
}

/// Map a video format to wf-recorder's (codec, pixel format).
pub fn codec_for_format(fmt: VideoFormat) -> (r: (&'static str, &'static str))
    ensures
        (r.0@, r.1@) == codec_pair(fmt),
{
    match fmt {
        VideoFormat::Mp4 | VideoFormat::Mkv => ("libx264", "yuv420p"),
        VideoFormat::Webm => ("libvpx-vp9", "yuv420p"),
        VideoFormat::Gif => ("libx264", "yuv420p"),
    }
}

/// The `-a` value: PipeWire takes the source description when there is
/// one, otherwise the source name is passed.
pub open spec fn audio_target(c: RecordingConfigView, b: AudioBackend) -> Seq<char> {
    if b == AudioBackend::Pipewire && c.audio_source_desc.len() > 0 {
        c.audio_source_desc
    } else {
        c.audio_source
    }
}

/// Audio flags: only with a source and a codec; the backend flag when
/// the backend has one, the source, then codec and bitrate.
pub open spec fn audio_args(c: RecordingConfigView, b: AudioBackend) -> Seq<Seq<char>> {
    if c.audio_source.len() > 0 && c.audio_format != AudioFormat::NoAudio {
        (match b.arg_text() {
            Some(a) => seq!["--audio-backend"@, a],
            None => seq![],
        }) + seq!["-a"@, audio_target(c, b)] + (match c.audio_format.codec_text() {
            Some(k) => seq![
                "-p"@,
                "audio_codec="@ + k,
                "-p"@,
                "audio_bitrate="@ + decimal(c.audio_bitrate as nat) + "k"@,
            ],
            None => seq![],
        })
    } else {
        seq![]
    }
}

/// Output file, codec, pixel format and encoder parameters (CRF, x264
/// preset, zero-latency tuning, no B-frames, a key frame every two
/// seconds).
pub open spec fn encoder_args(c: RecordingConfigView, out: Seq<char>) -> Seq<Seq<char>> {
    seq![
        "-y"@,
        "-f"@,
        out,
        "-c"@,
        codec_pair(c.video_format).0,
        "-x"@,
        codec_pair(c.video_format).1,
        "-p"@,
        "crf="@ + decimal(c.crf as nat),
        "-p"@,
        "preset="@ + c.preset,
        "-p"@,
        "tune=zerolatency"@,
        "-p"@,
        "bf=0"@,
        "-p"@,
        "g="@ + decimal((c.fps * 2) as nat),
    ]
}

/// The whole argument list passed to wf-recorder for configuration `c`,
/// output file `out` and audio backend `b`.
pub open spec fn wf_args(c: RecordingConfigView, out: Seq<char>, b: AudioBackend) -> Seq<Seq<char>> {
    encoder_args(c, out) + (if c.video_bitrate > 0 {
        seq!["-p"@, "bitrate="@ + decimal(c.video_bitrate as nat) + "k"@]
    } else {
        seq![]
    }) + seq!["-r"@, decimal(c.fps as nat)] + (if !c.use_dmabuf {
        seq!["--no-dmabuf"@]
    } else {
        seq![]
    }) + (if c.output.len() > 0 {
        seq!["-o"@, c.output]
    } else {
        seq![]
    }) + (if c.geometry.len() > 0 {
        seq!["-g"@, c.geometry]
    } else {
        seq![]
    }) + audio_args(c, b) + (if !c.record_cursor {
        seq!["--no-cursor"@]
    } else {
        seq![]
    })
}

/// Append one argument.
fn push_arg(args: &mut Vec<String>, a: String)
    ensures
        views(final(args)@) == views(old(args)@).push(a@),
{
    args.push(a);
    assert(views(args@) =~= views(old(args)@).push(a@));
}

/// Append `prefix` followed by the decimal digits of `n` and `suffix`.
fn push_number_arg(args: &mut Vec<String>, prefix: &str, n: u64, suffix: &str)
    ensures
        views(final(args)@) == views(old(args)@).push(prefix@ + decimal(n as nat) + suffix@),
{
    let mut s = String::from_str(prefix);
    let d = decimal_chars(n);
    append_chars(&mut s, &d);
    s.append(suffix);
    push_arg(args, s);
}

fn encoder_arg_list(cfg: &RecordingConfig, out: &str) -> (r: Vec<String>)
    requires
        cfg.fps * 2 <= u32::MAX,
    ensures
        views(r@) == encoder_args(cfg@, out@),
{
    let mut a: Vec<String> = Vec::new();
    let (codec, pix_fmt) = codec_for_format(cfg.video_format);
    push_arg(&mut a, String::from_str("-y"));
    push_arg(&mut a, String::from_str("-f"));
    push_arg(&mut a, String::from_str(out));
    push_arg(&mut a, String::from_str("-c"));
    push_arg(&mut a, String::from_str(codec));
    push_arg(&mut a, String::from_str("-x"));
    push_arg(&mut a, String::from_str(pix_fmt));
    push_arg(&mut a, String::from_str("-p"));
    push_number_arg(&mut a, "crf=", cfg.crf as u64, "");
    push_arg(&mut a, String::from_str("-p"));
    let mut preset = String::from_str("preset=");
    preset.append(cfg.preset.as_str());
    push_arg(&mut a, preset);
    push_arg(&mut a, String::from_str("-p"));
    push_arg(&mut a, String::from_str("tune=zerolatency"));
    push_arg(&mut a, String::from_str("-p"));
    push_arg(&mut a, String::from_str("bf=0"));
    push_arg(&mut a, String::from_str("-p"));
    push_number_arg(&mut a, "g=", (cfg.fps * 2) as u64, "");
    proof {
        reveal_strlit("");
    }
    assert(views(a@) =~= encoder_args(cfg@, out@));
    a
}

fn audio_arg_list(cfg: &RecordingConfig, backend: AudioBackend) -> (r: Vec<String>)
    ensures
        views(r@) == audio_args(cfg@, backend),
{
    let mut a: Vec<String> = Vec::new();
    assert(views(a@) =~= seq![]);
    if cfg.audio_source.unicode_len() > 0 && cfg.audio_format != AudioFormat::NoAudio {
        let ghost s0 = views(a@);
        if let Some(backend_arg) = backend.wf_recorder_arg() {
            push_arg(&mut a, String::from_str("--audio-backend"));
            push_arg(&mut a, String::from_str(backend_arg));
        }
        let ghost s1 = views(a@);
        assert(s1 =~= match backend.arg_text() {
            Some(x) => seq!["--audio-backend"@, x],
            None => seq![],
        });
        push_arg(&mut a, String::from_str("-a"));
        let target = match backend {
            AudioBackend::Pipewire => {
                if cfg.audio_source_desc.unicode_len() > 0 {
                    cfg.audio_source_desc.clone()
                } else {
                    cfg.audio_source.clone()
                }
            },
            AudioBackend::Pulseaudio | AudioBackend::NoBackend => cfg.audio_source.clone(),
        };
        push_arg(&mut a, target);
        let ghost s2 = views(a@);
        assert(s2 =~= s1 + seq!["-a"@, audio_target(cfg@, backend)]);
        if let Some(acodec) = cfg.audio_format.ffmpeg_codec() {
            push_arg(&mut a, String::from_str("-p"));
            let mut c = String::from_str("audio_codec=");
            c.append(acodec);
            push_arg(&mut a, c);
            push_arg(&mut a, String::from_str("-p"));
            push_number_arg(&mut a, "audio_bitrate=", cfg.audio_bitrate as u64, "k");
        }
        assert(views(a@) =~= s2 + match cfg.audio_format.codec_text() {
            Some(k) => seq![
                "-p"@,
                "audio_codec="@ + k,
                "-p"@,
                "audio_bitrate="@ + decimal(cfg.audio_bitrate as nat) + "k"@,
            ],
            None => seq![],
        });
    }
    a
}

/// Append every argument of `more`.
fn extend_args(args: &mut Vec<String>, more: Vec<String>)
    ensures
        views(final(args)@) == views(old(args)@) + views(more@),
{
    let ghost given = more@;
    let mut more = more;
    args.append(&mut more);
    assert(views(args@) =~= views(old(args)@) + views(given));
}

/// The arguments passed to wf-recorder to record `cfg` into `out` with
/// audio backend `backend`.
pub fn build_args(cfg: &RecordingConfig, out: &str, backend: AudioBackend) -> (r: Vec<String>)
    requires
        cfg.fps * 2 <= u32::MAX,
    ensures
        views(r@) == wf_args(cfg@, out@, backend),
{
    let mut a = encoder_arg_list(cfg, out);
    let ghost s0 = views(a@);
    if cfg.video_bitrate > 0 {
        push_arg(&mut a, String::from_str("-p"));
        push_number_arg(&mut a, "bitrate=", cfg.video_bitrate as u64, "k");
    }
    let ghost s1 = views(a@);
    assert(s1 =~= s0 + (if cfg.video_bitrate > 0 {
        seq!["-p"@, "bitrate="@ + decimal(cfg.video_bitrate as nat) + "k"@]
    } else {
        seq![]
    }));
    push_arg(&mut a, String::from_str("-r"));
    let fps = crate::text::string_of(decimal_chars(cfg.fps as u64).as_slice());
    push_arg(&mut a, fps);
    let ghost s2 = views(a@);
    assert(s2 =~= s1 + seq!["-r"@, decimal(cfg.fps as nat)]);
    if !cfg.use_dmabuf {
        push_arg(&mut a, String::from_str("--no-dmabuf"));
    }
    let ghost s3 = views(a@);
    assert(s3 =~= s2 + (if !cfg.use_dmabuf {
        seq!["--no-dmabuf"@]
    } else {
        seq![]
    }));
    if cfg.output.unicode_len() > 0 {
        push_arg(&mut a, String::from_str("-o"));
        push_arg(&mut a, cfg.output.clone());
    }
    let ghost s4 = views(a@);
    assert(s4 =~= s3 + (if cfg@.output.len() > 0 {
        seq!["-o"@, cfg@.output]
    } else {
        seq![]
    }));
    if cfg.geometry.unicode_len() > 0 {
        push_arg(&mut a, String::from_str("-g"));
        push_arg(&mut a, cfg.geometry.clone());
    }
    let ghost s5 = views(a@);
    assert(s5 =~= s4 + (if cfg@.geometry.len() > 0 {
        seq!["-g"@, cfg@.geometry]
    } else {
        seq![]
    }));
    let audio = audio_arg_list(cfg, backend);
    extend_args(&mut a, audio);
    let ghost s6 = views(a@);
    if !cfg.record_cursor {
        push_arg(&mut a, String::from_str("--no-cursor"));
    }
    assert(views(a@) =~= s6 + (if !cfg.record_cursor {
        seq!["--no-cursor"@]
    } else {
        seq![]
    }));
    assert(views(a@) =~= wf_args(cfg@, out@, backend));
    a
}

/// A path is absolute when it starts with `/`.
pub open spec fn is_absolute_path(p: Seq<char>) -> bool {
    p.len() > 0 && p[0] == '/'
}

/// The final file's path for `c` when the clock reads `stamp`.
pub open spec fn output_path_for(c: RecordingConfigView, stamp: Seq<char>) -> Seq<char> {
    joined_path(c.output_dir, with_extension(file_name_for(c, stamp), c.video_format))
}

/// What wf-recorder records into: the final path, except that a GIF is
/// captured to an intermediate MP4 next to it (the final path with its
/// extension replaced by `mp4`), which post-processing converts into the
/// GIF.
pub open spec fn capture_path_for(c: RecordingConfigView, stamp: Seq<char>) -> Seq<char> {
    if c.video_format == VideoFormat::Gif {
        replace_ext(output_path_for(c, stamp), "mp4"@)
    } else {
        output_path_for(c, stamp)
    }
}

/// The GIF made from an intermediate capture: the capture's path with its
/// extension replaced by `gif`.
pub open spec fn gif_path_text(capture: Seq<char>) -> Seq<char> {
    replace_ext(capture, "gif"@)
}

/// Where the GIF converted from the intermediate capture `capture` goes.
pub fn gif_path(capture: &str) -> (r: String)
    ensures
        r@ == gif_path_text(capture@),
{
    crate::text::replace_extension(capture, "gif")
}

/// The error for an output directory that is not absolute.
pub open spec fn relative_dir_error(dir: Seq<char>) -> Seq<char> {
    "output_dir must be absolute, got "@ + dir
}

/// What is known of a prepared recording: the path for some time stamp
/// and the argument list for that path, or the error for a relative
/// output directory.
pub open spec fn prepared(
    c: RecordingConfigView,
    b: AudioBackend,
    stamp: Seq<char>,
    r: Result<(String, Vec<String>), AppError>,
) -> bool {
    match r {
        Ok((path, args)) => is_absolute_path(c.output_dir) && path@ == capture_path_for(c, stamp)
            && views(args@) == wf_args(c, path@, b),
        Err(e) => !is_absolute_path(c.output_dir) && e is ConfigParse
            && e->ConfigParse_0@ == relative_dir_error(c.output_dir),
    }
}

/// Starts wf-recorder; the process handling lives with the caller, this
/// type decides what to run.
pub struct RecorderController;

impl RecorderController {
    /// Output path and wf-recorder arguments for `cfg`, with the clock at
    /// `stamp` and audio backend `backend`; an error when the output
    /// directory is not absolute.
    pub fn command_line_at(cfg: &RecordingConfig, backend: AudioBackend, stamp: &str) -> (r: Result<
        (String, Vec<String>),
        AppError,
    >)
        requires
            cfg.fps * 2 <= u32::MAX,
        ensures
            prepared(cfg@, backend, stamp@, r),
    {
        if !(cfg.output_dir.unicode_len() > 0 && cfg.output_dir.get_char(0) == '/') {
            let mut m = String::from_str("output_dir must be absolute, got ");
            m.append(cfg.output_dir.as_str());
            return Err(AppError::ConfigParse(m));
        }
        let name = crate::config::default_filename_at(cfg, stamp);
        let name = ensure_extension(name.as_str(), cfg.video_format);
        let mut path = join_path(cfg.output_dir.as_str(), name.as_str());
        if cfg.video_format == VideoFormat::Gif {
            path = crate::text::replace_extension(path.as_str(), "mp4");
        }
        let args = build_args(cfg, path.as_str(), backend);
        Ok((path, args))
    }
}

// ---------------------------------------------------------------------------
// Post-processing
// ---------------------------------------------------------------------------

/// What to do with a finished recording.
#[derive(Debug, Clone, Copy, PartialEq, Eq)]
pub struct PostProcessPlan {
    /// Scale to this size first (which also applies faststart to MP4).
    pub scale_to: Option<(u32, u32)>,
    /// Convert to GIF.
    pub convert_gif: bool,
}

/// Scale when the quality asks for a size; convert a GIF recording.
pub open spec fn plan_for(c: RecordingConfigView) -> PostProcessPlan {
    PostProcessPlan {
        scale_to: c.quality.size_for(c.manual_width, c.manual_height),
        convert_gif: c.video_format == VideoFormat::Gif,
    }
}

/// The post-processing steps for a recording made with `cfg`.
pub fn post_process(cfg: &RecordingConfig) -> (r: PostProcessPlan)
    ensures
        r == plan_for(cfg@),
{
    PostProcessPlan {
        scale_to: cfg.quality.dimensions(cfg.manual_width, cfg.manual_height),
        convert_gif: cfg.video_format == VideoFormat::Gif,
    }
}

/// Whether an MP4 still needs its index moved to the front once the
/// scaling step is over: scaling already does it, so only when no scaling
/// succeeded (none was planned, or it failed).
pub fn needs_faststart(cfg: &RecordingConfig, scaled: bool) -> (r: bool)
    ensures
        r == (cfg.video_format == VideoFormat::Mp4 && !scaled),
{
    cfg.video_format == VideoFormat::Mp4 && !scaled
}

/// Name of a scratch file next to the recording: `.<stem>_<purpose>.<ext>`
/// (the extension kept so ffmpeg recognises the container).
pub open spec fn scratch_name_text(stem: Seq<char>, purpose: Seq<char>, ext: Seq<char>) -> Seq<char> {
    "."@ + stem + "_"@ + purpose + "."@ + ext
}

pub fn scratch_name(stem: &str, purpose: &str, ext: &str) -> (r: String)
    ensures
        r@ == scratch_name_text(stem@, purpose@, ext@),
{
    let mut r = String::from_str(".");
    r.append(stem);
    r.append("_");
    r.append(purpose);
    r.append(".");
    r.append(ext);
    r
}

/// ffmpeg arguments to scale `input` to `w`x`h` with Lanczos into `tmp`,
/// re-encoding with x264 `medium` at CRF 18, copying audio, and moving the
/// index to the front for MP4.
pub open spec fn scale_args_text(input: Seq<char>, w: u32, h: u32, tmp: Seq<char>, is_mp4: bool) -> Seq<
    Seq<char>,
> {
    seq![
        "-y"@,
        "-i"@,
        input,
        "-vf"@,
        "scale="@ + decimal(w as nat) + ":"@ + decimal(h as nat) + ":flags=lanczos,setsar=1"@,
        "-c:v"@,
        "libx264"@,
        "-preset"@,
        "medium"@,
        "-crf"@,
        "18"@,
        "-pix_fmt"@,
        "yuv420p"@,
        "-c:a"@,
        "copy"@,
    ] + (if is_mp4 {
        seq!["-movflags"@, "+faststart"@]
    } else {
        seq![]
    }) + seq![tmp]
}

pub fn scale_args(input: &str, w: u32, h: u32, tmp: &str, is_mp4: bool) -> (r: Vec<String>)
    ensures
        views(r@) == scale_args_text(input@, w, h, tmp@, is_mp4),
{
    let mut a: Vec<String> = Vec::new();
    push_arg(&mut a, String::from_str("-y"));
    push_arg(&mut a, String::from_str("-i"));
    push_arg(&mut a, String::from_str(input));
    push_arg(&mut a, String::from_str("-vf"));
    let mut f = String::from_str("scale=");
    append_chars(&mut f, &decimal_chars(w as u64));
    f.append(":");
    append_chars(&mut f, &decimal_chars(h as u64));
    f.append(":flags=lanczos,setsar=1");
    push_arg(&mut a, f);
    push_arg(&mut a, String::from_str("-c:v"));
    push_arg(&mut a, String::from_str("libx264"));
    push_arg(&mut a, String::from_str("-preset"));
    push_arg(&mut a, String::from_str("medium"));
    push_arg(&mut a, String::from_str("-crf"));
    push_arg(&mut a, String::from_str("18"));
    push_arg(&mut a, String::from_str("-pix_fmt"));
    push_arg(&mut a, String::from_str("yuv420p"));
    push_arg(&mut a, String::from_str("-c:a"));
    push_arg(&mut a, String::from_str("copy"));
    let ghost s0 = views(a@);
    if is_mp4 {
        push_arg(&mut a, String::from_str("-movflags"));
        push_arg(&mut a, String::from_str("+faststart"));
    }
    push_arg(&mut a, String::from_str(tmp));
    assert(views(a@) =~= scale_args_text(input@, w, h, tmp@, is_mp4));
    a
}

/// ffmpeg arguments that remux `input` into `tmp` with the index first,
/// without re-encoding.
pub open spec fn faststart_args_text(input: Seq<char>, tmp: Seq<char>) -> Seq<Seq<char>> {
    seq!["-y"@, "-i"@, input, "-c"@, "copy"@, "-movflags"@, "+faststart"@, tmp]
}

pub fn faststart_args(input: &str, tmp: &str) -> (r: Vec<String>)
    ensures
        views(r@) == faststart_args_text(input@, tmp@),
{
    let mut a: Vec<String> = Vec::new();
    push_arg(&mut a, String::from_str("-y"));
    push_arg(&mut a, String::from_str("-i"));
    push_arg(&mut a, String::from_str(input));
    push_arg(&mut a, String::from_str("-c"));
    push_arg(&mut a, String::from_str("copy"));
    push_arg(&mut a, String::from_str("-movflags"));
    push_arg(&mut a, String::from_str("+faststart"));
    push_arg(&mut a, String::from_str(tmp));
    assert(views(a@) =~= faststart_args_text(input@, tmp@));
    a
}

/// ffmpeg arguments of the first GIF pass: build a palette from `video`.
pub open spec fn palette_args_text(video: Seq<char>, palette: Seq<char>) -> Seq<Seq<char>> {
    seq!["-y"@, "-i"@, video, "-vf"@, "palettegen=stats_mode=diff"@, palette]
}

pub fn palette_args(video: &str, palette: &str) -> (r: Vec<String>)
    ensures
        views(r@) == palette_args_text(video@, palette@),
{
    let mut a: Vec<String> = Vec::new();
    push_arg(&mut a, String::from_str("-y"));
    push_arg(&mut a, String::from_str("-i"));
    push_arg(&mut a, String::from_str(video));
    push_arg(&mut a, String::from_str("-vf"));
    push_arg(&mut a, String::from_str("palettegen=stats_mode=diff"));
    push_arg(&mut a, String::from_str(palette));
    assert(views(a@) =~= palette_args_text(video@, palette@));
    a
}

/// ffmpeg arguments of the second GIF pass: apply the palette with Bayer
/// dithering.
pub open spec fn gif_args_text(video: Seq<char>, palette: Seq<char>, gif: Seq<char>) -> Seq<Seq<char>> {
    seq![
        "-y"@,
        "-i"@,
        video,
        "-i"@,
        palette,
        "-lavfi"@,
        "paletteuse=dither=bayer:bayer_scale=5"@,
        gif,
    ]
}

pub fn gif_args(video: &str, palette: &str, gif: &str) -> (r: Vec<String>)
    ensures
        views(r@) == gif_args_text(video@, palette@, gif@),
{
    let mut a: Vec<String> = Vec::new();
    push_arg(&mut a, String::from_str("-y"));
    push_arg(&mut a, String::from_str("-i"));
    push_arg(&mut a, String::from_str(video));
    push_arg(&mut a, String::from_str("-i"));
    push_arg(&mut a, String::from_str(palette));
    push_arg(&mut a, String::from_str("-lavfi"));
    push_arg(&mut a, String::from_str("paletteuse=dither=bayer:bayer_scale=5"));
    push_arg(&mut a, String::from_str(gif));
    assert(views(a@) =~= gif_args_text(video@, palette@, gif@));
    a
}

// ---------------------------------------------------------------------------
// Laws
// ---------------------------------------------------------------------------

/// An exit after a requested stop is a clean return to idle, whatever the
/// exit code.
pub proof fn law_requested_stop_ends_idle(
    s: RecorderStateView,
    code: Option<i32>,
    now: std::time::Instant,
)
    requires
        s.stop_requested,
    ensures
        step(s, WorkerMsgView::Exited { code }, now).1 == Some(StatusView::Idle),
{
}

/// An exit nobody asked for is a failure.
pub proof fn law_unrequested_exit_fails(s: RecorderStateView, code: Option<i32>, now: std::time::Instant)
    requires
        !s.stop_requested,
    ensures
        step(s, WorkerMsgView::Exited { code }, now).1 matches Some(StatusView::Failed { .. }),
{
}

/// Stderr lines never exceed the kept limit once within it.
pub proof fn law_stderr_bounded(s: RecorderStateView, m: WorkerMsgView, now: std::time::Instant)
    requires
        s.stderr.len() <= STDERR_KEEP,
    ensures
        step(s, m, now).0.stderr.len() <= STDERR_KEEP,
{
}

/// The output file always carries the format's extension.
pub proof fn law_output_path_has_extension(c: RecordingConfigView, stamp: Seq<char>)
    ensures
        crate::text::ends_with(
            crate::text::ascii_lower(output_path_for(c, stamp)),
            crate::config::extension_suffix(c.video_format),
        ),
{
    let name = with_extension(file_name_for(c, stamp), c.video_format);
    crate::config::law_ensure_extension_ends_with_extension(file_name_for(c, stamp), c.video_format);
    let suf = crate::config::extension_suffix(c.video_format);
    let p = output_path_for(c, stamp);
    let low = crate::text::ascii_lower(name);
    assert(low.skip(low.len() - suf.len()) == suf);
    if name.len() > 0 && name[0] == '/' {
    } else {
        let pre = if c.output_dir.len() == 0 || c.output_dir.last() == '/' {
            c.output_dir
        } else {
            c.output_dir + seq!['/']
        };
        assert(p =~= pre + name);
        assert(crate::text::ascii_lower(p) =~= crate::text::ascii_lower(pre) + low);
        let lp = crate::text::ascii_lower(p);
        assert(lp.skip(lp.len() - suf.len()) =~= low.skip(low.len() - suf.len()));
    }
}

/// wf-recorder always gets the encoder right after `-c` and the pixel
/// format right after `-x`: VP9 (`libvpx-vp9`) for WebM and H.264
/// (`libx264`) for every other format, MKV and GIF included, always in
/// `yuv420p`; MP4, MKV and GIF are encoded alike.
pub proof fn law_h264_except_webm(c: RecordingConfigView, out: Seq<char>, b: AudioBackend)
    ensures
        ({
            let a = wf_args(c, out, b);
            &&& a.len() > 6
            &&& a[3] == "-c"@
            &&& a[4] == (if c.video_format == VideoFormat::Webm {
                "libvpx-vp9"@
            } else {
                "libx264"@
            })
            &&& a[5] == "-x"@
            &&& a[6] == "yuv420p"@
        }),
        codec_pair(VideoFormat::Mkv).0 == "libx264"@,
        codec_pair(VideoFormat::Webm).0 == "libvpx-vp9"@,
        codec_pair(VideoFormat::Mp4) == codec_pair(VideoFormat::Mkv),
        codec_pair(VideoFormat::Gif) == codec_pair(VideoFormat::Mkv),
        codec_pair(VideoFormat::Webm) != codec_pair(VideoFormat::Mkv),
{
    reveal_strlit("libx264");
    reveal_strlit("libvpx-vp9");
    let a = wf_args(c, out, b);
    let e = encoder_args(c, out);
    assert(e.len() == 17);
    assert(a.len() >= e.len());
    assert(a[3] == e[3] && a[4] == e[4] && a[5] == e[5] && a[6] == e[6]);
    assert("libx264"@[3] != "libvpx-vp9"@[3]);
}

/// Replacing an extension and then replacing it again is the same as
/// replacing it once with the second one.
pub proof fn law_replace_ext_twice(p: Seq<char>, a: Seq<char>, b: Seq<char>)
    requires
        ext_dot(p) is Some,
        forall|j: int| 0 <= j < a.len() ==> a[j] != '.' && a[j] != '/',
    ensures
        replace_ext(replace_ext(p, a), b) == replace_ext(p, b),
{
    let i = ext_dot(p)->0;
    crate::text::lemma_rfind_before_range(p, '.', p.len() as int);
    let q = p.take(i) + seq!['.'] + a;
    assert(q.len() == i + 1 + a.len());
    assert(q[i] == '.');
    assert forall|j: int| i + 1 <= j < q.len() implies q[j] != '.' by {
        assert(q[j] == a[j - i - 1]);
    }
    lemma_rfind_before_skip(q, '.', i + 1, q.len() as int);
    assert(rfind_before(q, '.', i + 1) == Some(i));
    assert(q[i - 1] == p[i - 1]);
    assert(ext_dot(q) == Some(i));
    assert(q.take(i) =~= p.take(i));
}

/// A name with no `/` that does not start with a dot keeps, once given the
/// GIF extension, at least one character before a final `.` followed by
/// three characters that are neither `.` nor `/`.
proof fn lemma_gif_name_shape(n: Seq<char>)
    requires
        n.len() > 0,
        n[0] != '.',
        forall|j: int| 0 <= j < n.len() ==> n[j] != '/',
    ensures
        ({
            let m = with_extension(n, VideoFormat::Gif);
            &&& m.len() >= 5
            &&& m[0] == n[0]
            &&& m[m.len() - 4] == '.'
            &&& m[m.len() - 5] != '/'
            &&& forall|j: int| m.len() - 3 <= j < m.len() ==> m[j] != '.' && m[j] != '/'
        }),
{
    reveal_strlit("gif");
    let m = with_extension(n, VideoFormat::Gif);
    let l = crate::text::ascii_lower(n);
    if crate::text::ends_with(l, crate::config::extension_suffix(VideoFormat::Gif)) {
        assert(l.skip(l.len() - 4) == seq!['.', 'g', 'i', 'f']);
        assert forall|k: int| 0 <= k < 4 implies ascii_lower_char(#[trigger] n[n.len() - 4 + k])
            == seq!['.', 'g', 'i', 'f'][k] by {
            assert(l.skip(l.len() - 4)[k] == l[n.len() - 4 + k]);
        }
        assert(ascii_lower_char(n[n.len() - 4]) == '.');
        assert(n[n.len() - 4] == '.');
        assert(n.len() != 4);
        assert forall|j: int| m.len() - 3 <= j < m.len() implies m[j] != '.' && m[j] != '/' by {
            assert(ascii_lower_char(n[n.len() - 4 + (j - (n.len() - 4))]) == seq!['.', 'g', 'i', 'f'][
                j - (n.len() - 4)]);
        }
    } else {
        assert(m == n + seq!['.', 'g', 'i', 'f']);
    }
}

/// The final path of a GIF recording ends in an extension: a `.` that is
/// not the first character of the file name, followed by three characters.
proof fn lemma_gif_final_ext(c: RecordingConfigView, stamp: Seq<char>)
    requires
        c.video_format == VideoFormat::Gif,
        forall|j: int| 0 <= j < stamp.len() ==> stamp[j] != '/',
    ensures
        output_path_for(c, stamp).len() >= 5,
        ext_dot(output_path_for(c, stamp)) == Some(output_path_for(c, stamp).len() - 4),
{
    reveal_strlit("Recording_");
    reveal_strlit("gif");
    let n = crate::config::file_name_for(c, stamp);
    let safe = crate::config::sanitized(c.custom_filename);
    if crate::text::trim(c.custom_filename).len() > 0 && safe.len() > 0 {
        crate::shared::law_sanitized_is_safe(c.custom_filename);
        lemma_gif_name_shape(safe);
        assert(n == with_extension(safe, VideoFormat::Gif));
        // Giving the extension twice changes nothing.
        crate::config::law_ensure_extension_idempotent(safe, VideoFormat::Gif);
        lemma_gif_name_shape(n);
    } else {
        let r = "Recording_"@ + stamp + seq!['.'] + "gif"@;
        assert(n == r);
        assert(r[0] == 'R');
        assert forall|j: int| 0 <= j < r.len() implies r[j] != '/' by {
            if 10 <= j < 10 + stamp.len() {
                assert(r[j] == stamp[j - 10]);
            }
        }
        lemma_gif_name_shape(n);
    }
    let m = with_extension(n, VideoFormat::Gif);
    let f = output_path_for(c, stamp);
    assert(m[0] != '/');
    let pre = if c.output_dir.len() == 0 || c.output_dir.last() == '/' {
        c.output_dir
    } else {
        c.output_dir + seq!['/']
    };
    assert(f =~= pre + m);
    assert forall|j: int| pre.len() <= j < f.len() implies #[trigger] f[j] == m[j - pre.len()] by {}
    assert(f.len() == pre.len() + m.len());
    assert(f[f.len() - 4] == '.');
    assert(f[f.len() - 5] != '/');
    assert forall|j: int| f.len() - 3 <= j < f.len() implies f[j] != '.' && f[j] != '/' by {
        assert(f[j] == m[j - pre.len()]);
    }
    lemma_rfind_before_skip(f, '.', f.len() - 3, f.len() as int);
    assert(rfind_before(f, '.', f.len() - 3) == Some(f.len() - 4));
    assert(rfind(f, '.') == Some(f.len() - 4));
}

/// wf-recorder records a GIF into an intermediate MP4 beside the final
/// file (`<stem>.mp4`), and the GIF converted from it gets the final
/// path's stem with the `gif` extension (exactly the final path when its
/// extension is written `gif`); other formats are recorded in place. This
/// holds for time stamps without `/`, as the clock's are.
pub proof fn law_gif_captured_as_mp4(c: RecordingConfigView, stamp: Seq<char>)
    requires
        forall|j: int| 0 <= j < stamp.len() ==> stamp[j] != '/',
    ensures
        c.video_format == VideoFormat::Gif ==> crate::text::ends_with(
            capture_path_for(c, stamp),
            ".mp4"@,
        ) && gif_path_text(capture_path_for(c, stamp)) == replace_ext(
            output_path_for(c, stamp),
            "gif"@,
        ),
        c.video_format == VideoFormat::Gif && crate::text::ends_with(
            output_path_for(c, stamp),
            ".gif"@,
        ) ==> gif_path_text(capture_path_for(c, stamp)) == output_path_for(c, stamp),
        c.video_format != VideoFormat::Gif ==> capture_path_for(c, stamp) == output_path_for(c, stamp),
{
    reveal_strlit(".mp4");
    reveal_strlit("mp4");
    reveal_strlit(".gif");
    reveal_strlit("gif");
    if c.video_format == VideoFormat::Gif {
        lemma_gif_final_ext(c, stamp);
        let f = output_path_for(c, stamp);
        let i = f.len() - 4;
        let cap = replace_ext(f, "mp4"@);
        assert(cap == f.take(i) + seq!['.'] + "mp4"@);
        assert(cap.skip(cap.len() - 4) =~= ".mp4"@);
        law_replace_ext_twice(f, "mp4"@, "gif"@);
        if crate::text::ends_with(f, ".gif"@) {
            let t = f.skip(i);
            assert(t == ".gif"@);
            assert forall|j: int| i <= j < f.len() implies #[trigger] f[j] == t[j - i] by {}
            assert(f.take(i) + seq!['.'] + "gif"@ =~= f);
        }
    }
}

/// Applying messages never changes whether a stop was asked for.
proof fn lemma_apply_all_keeps_stop(
    s: RecorderStateView,
    msgs: Seq<WorkerMsgView>,
    now: std::time::Instant,
    found: Option<StatusView>,
)
    ensures
        apply_all(s, msgs, now, found).0.stop_requested == s.stop_requested,
    decreases msgs.len(),
{
    if msgs.len() > 0 {
        let (s2, t) = step(s, msgs[0], now);
        lemma_apply_all_keeps_stop(s2, msgs.drop_first(), now, if t is Some { t } else { found });
    }
}

/// When the last message is an exit, the reported transition is the one
/// that exit causes.
#[verifier::spinoff_prover]
proof fn lemma_apply_all_ends_with_exit(
    s: RecorderStateView,
    msgs: Seq<WorkerMsgView>,
    now: std::time::Instant,
    found: Option<StatusView>,
)
    requires
        msgs.len() > 0,
        msgs.last() is Exited,
    ensures
        apply_all(s, msgs, now, found).1 == Some(
            if s.stop_requested {
                StatusView::Idle
            } else {
                StatusView::Failed {
                    message: exit_message(
                        apply_all(s, msgs.drop_last(), now, found).0.stderr,
                        msgs.last()->code,
                    ),
                }
            },
        ),
    decreases msgs.len(),
{
    let (s2, t) = step(s, msgs[0], now);
    let f2 = if t is Some { t } else { found };
    if msgs.len() == 1 {
        assert(msgs.drop_last() =~= Seq::<WorkerMsgView>::empty());
        assert(msgs.drop_first() =~= Seq::<WorkerMsgView>::empty());
    } else {
        let rest = msgs.drop_first();
        lemma_apply_all_ends_with_exit(s2, rest, now, f2);
        lemma_apply_all_keeps_stop(s, seq![msgs[0]], now, found);
        assert(rest.drop_last() =~= msgs.drop_last().drop_first());
        assert(msgs.drop_last()[0] == msgs[0]);
    }
}

/// After a stop was asked for, a poll whose last message is the exit
/// reports the return to idle, and idle becomes the status.
pub proof fn law_stop_then_exit_is_idle(
    s: RecorderStateView,
    msgs: Seq<WorkerMsgView>,
    now: std::time::Instant,
    finished: bool,
)
    requires
        msgs.len() > 0,
        msgs.last() is Exited,
    ensures
        polled(RecorderStateView { stop_requested: true, ..s }, msgs, now, finished).1 == Some(
            StatusView::Idle,
        ),
        polled(RecorderStateView { stop_requested: true, ..s }, msgs, now, finished).0.last_status
            == StatusView::Idle,
{
    lemma_apply_all_ends_with_exit(RecorderStateView { stop_requested: true, ..s }, msgs, now, None);
}

/// Without a stop request, a poll whose last message is the exit reports
/// a failure, and the failure becomes the status.
pub proof fn law_exit_without_stop_fails(
    s: RecorderStateView,
    msgs: Seq<WorkerMsgView>,
    now: std::time::Instant,
    finished: bool,
)
    requires
        !s.stop_requested,
        msgs.len() > 0,
        msgs.last() is Exited,
    ensures
        polled(s, msgs, now, finished).1 matches Some(StatusView::Failed { .. }),
        polled(s, msgs, now, finished).0.last_status is Failed,
{
    lemma_apply_all_ends_with_exit(s, msgs, now, None);
}

/// Stderr lines alone cause no transition and keep the status.
proof fn lemma_apply_all_stderr_only(
    s: RecorderStateView,
    msgs: Seq<WorkerMsgView>,
    now: std::time::Instant,
    found: Option<StatusView>,
)
    requires
        forall|i: int| 0 <= i < msgs.len() ==> #[trigger] msgs[i] is StderrLine,
    ensures
        apply_all(s, msgs, now, found).1 == found,
        apply_all(s, msgs, now, found).0.last_status == s.last_status,
    decreases msgs.len(),
{
    if msgs.len() > 0 {
        assert(msgs[0] is StderrLine);
        let (s2, t) = step(s, msgs[0], now);
        let rest = msgs.drop_first();
        assert forall|i: int| 0 <= i < rest.len() implies #[trigger] rest[i] is StderrLine by {
            assert(rest[i] == msgs[i + 1]);
        }
        lemma_apply_all_stderr_only(s2, rest, now, found);
    }
}

/// While wf-recorder runs, a poll that only brings stderr lines reports the
/// current status unchanged; once the worker has finished such a poll
/// reports nothing.
pub proof fn law_poll_reports_current_status(
    s: RecorderStateView,
    msgs: Seq<WorkerMsgView>,
    now: std::time::Instant,
)
    requires
        forall|i: int| 0 <= i < msgs.len() ==> #[trigger] msgs[i] is StderrLine,
    ensures
        polled(s, msgs, now, false).1 == Some(s.last_status),
        polled(s, msgs, now, false).0.last_status == s.last_status,
        polled(s, msgs, now, true).1 is None,
{
    lemma_apply_all_stderr_only(s, msgs, now, None);
}

} // verus!
