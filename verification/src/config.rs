//! Recording options, their defaults, keyboard shortcuts and the naming
//! of the output file.

use vstd::prelude::*;
use crate::text::{
    all_ascii, append_chars, ascii_lower, ascii_lower_chars, chars_of, contains, contains_chars,
    ends_with, ends_with_chars, lemma_split_len_pos, push_char, split_chars, split_on,
    string_of, strip_leading, to_lowercase, trim, trim_chars, unicode_lowercase,
};

verus! {

/// Container format chosen by the user.
#[derive(Debug, Clone, Copy, PartialEq, Eq, Structural)]
pub enum VideoFormat {
    Mp4,
    Webm,
    Mkv,
    Gif,
}

impl VideoFormat {
    /// Every format, in the order the UIs list them.
    pub const ALL: [VideoFormat; 4] = [
        VideoFormat::Mp4,
        VideoFormat::Webm,
        VideoFormat::Mkv,
        VideoFormat::Gif,
    ];

    pub open spec fn label_text(self) -> Seq<char> {
        match self {
            VideoFormat::Mp4 => "MP4 (H.264)"@,
            VideoFormat::Webm => "WebM (VP9)"@,
            VideoFormat::Mkv => "MKV (H.264)"@,
            VideoFormat::Gif => "GIF (animated)"@,
        }
    }

    pub open spec fn extension_text(self) -> Seq<char> {
        match self {
            VideoFormat::Mp4 => "mp4"@,
            VideoFormat::Webm => "webm"@,
            VideoFormat::Mkv => "mkv"@,
            VideoFormat::Gif => "gif"@,
        }
    }

    /// Position of the format in [`VideoFormat::ALL`].
    pub open spec fn index_of(self) -> int {
        match self {
            VideoFormat::Mp4 => 0,
            VideoFormat::Webm => 1,
            VideoFormat::Mkv => 2,
            VideoFormat::Gif => 3,
        }
    }

    pub fn label(self) -> (r: &'static str)
        ensures
            r@ == self.label_text(),
    {
        match self {
            VideoFormat::Mp4 => "MP4 (H.264)",
            VideoFormat::Webm => "WebM (VP9)",
            VideoFormat::Mkv => "MKV (H.264)",
            VideoFormat::Gif => "GIF (animated)",
        }
    }

    pub fn extension(self) -> (r: &'static str)
        ensures
            r@ == self.extension_text(),
    {
        match self {
            VideoFormat::Mp4 => "mp4",
            VideoFormat::Webm => "webm",
            VideoFormat::Mkv => "mkv",
            VideoFormat::Gif => "gif",
        }
    }

    /// Position of the format in [`VideoFormat::ALL`].
    pub fn position(self) -> (r: usize)
        ensures
            r == self.index_of(),
    {
        match self {
            VideoFormat::Mp4 => 0,
            VideoFormat::Webm => 1,
            VideoFormat::Mkv => 2,
            VideoFormat::Gif => 3,
        }
    }

    /// The format at position `i` of [`VideoFormat::ALL`].
    pub fn at(i: usize) -> (r: VideoFormat)
        requires
            i < 4,
        ensures
            r.index_of() == i,
    {
        if i == 0 {
            VideoFormat::Mp4
        } else if i == 1 {
            VideoFormat::Webm
        } else if i == 2 {
            VideoFormat::Mkv
        } else {
            VideoFormat::Gif
        }
    }
}

/// Audio codec for the captured stream.
#[derive(Debug, Clone, Copy, PartialEq, Eq, Structural)]
pub enum AudioFormat {
    Aac,
    Mp3,
    Ogg,
    Opus,
    NoAudio,
}

impl AudioFormat {
    /// Every codec choice, in the order the UIs list them.
    pub const ALL: [AudioFormat; 5] = [
        AudioFormat::Aac,
        AudioFormat::Mp3,
        AudioFormat::Ogg,
        AudioFormat::Opus,
        AudioFormat::NoAudio,
    ];

    pub open spec fn label_text(self) -> Seq<char> {
        match self {
            AudioFormat::Aac => "AAC"@,
            AudioFormat::Mp3 => "MP3"@,
            AudioFormat::Ogg => "Vorbis (OGG)"@,
            AudioFormat::Opus => "Opus"@,
            AudioFormat::NoAudio => "Sin audio"@,
        }
    }

    pub open spec fn codec_text(self) -> Option<Seq<char>> {
        match self {
            AudioFormat::Aac => Some("aac"@),
            AudioFormat::Mp3 => Some("libmp3lame"@),
            AudioFormat::Ogg => Some("libvorbis"@),
            AudioFormat::Opus => Some("libopus"@),
            AudioFormat::NoAudio => None,
        }
    }

    pub open spec fn index_of(self) -> int {
        match self {
            AudioFormat::Aac => 0,
            AudioFormat::Mp3 => 1,
            AudioFormat::Ogg => 2,
            AudioFormat::Opus => 3,
            AudioFormat::NoAudio => 4,
        }
    }

    pub fn label(self) -> (r: &'static str)
        ensures
            r@ == self.label_text(),
    {
        match self {
            AudioFormat::Aac => "AAC",
            AudioFormat::Mp3 => "MP3",
            AudioFormat::Ogg => "Vorbis (OGG)",
            AudioFormat::Opus => "Opus",
            AudioFormat::NoAudio => "Sin audio",
        }
    }

    pub fn ffmpeg_codec(self) -> (r: Option<&'static str>)
        ensures
            match r {
                Some(c) => self.codec_text() == Some(c@),
                None => self.codec_text() is None,
            },
    {
        match self {
            AudioFormat::Aac => Some("aac"),
            AudioFormat::Mp3 => Some("libmp3lame"),
            AudioFormat::Ogg => Some("libvorbis"),
            AudioFormat::Opus => Some("libopus"),
            AudioFormat::NoAudio => None,
        }
    }

    pub fn position(self) -> (r: usize)
        ensures
            r == self.index_of(),
    {
        match self {
            AudioFormat::Aac => 0,
            AudioFormat::Mp3 => 1,
            AudioFormat::Ogg => 2,
            AudioFormat::Opus => 3,
            AudioFormat::NoAudio => 4,
        }
    }

    pub fn at(i: usize) -> (r: AudioFormat)
        requires
            i < 5,
        ensures
            r.index_of() == i,
    {
        if i == 0 {
            AudioFormat::Aac
        } else if i == 1 {
            AudioFormat::Mp3
        } else if i == 2 {
            AudioFormat::Ogg
        } else if i == 3 {
            AudioFormat::Opus
        } else {
            AudioFormat::NoAudio
        }
    }
}

/// Target output resolution.
#[derive(Debug, Clone, Copy, PartialEq, Eq, Structural)]
pub enum VideoQuality {
    Original,
    P144,
    P240,
    P360,
    P720,
    P1080,
    Manual,
}

impl VideoQuality {
    /// Every quality, in the order the UIs list them.
    pub const ALL: [VideoQuality; 7] = [
        VideoQuality::Original,
        VideoQuality::P144,
        VideoQuality::P240,
        VideoQuality::P360,
        VideoQuality::P720,
        VideoQuality::P1080,
        VideoQuality::Manual,
    ];

    pub open spec fn label_text(self) -> Seq<char> {
        match self {
            VideoQuality::Original => "Original (sin escalar)"@,
            VideoQuality::P144 => "144p"@,
            VideoQuality::P240 => "240p"@,
            VideoQuality::P360 => "360p"@,
            VideoQuality::P720 => "720p (HD)"@,
            VideoQuality::P1080 => "1080p (Full HD)"@,
            VideoQuality::Manual => "Manual"@,
        }
    }

    /// Target size: fixed for the named qualities, the manual size when
    /// both of its sides are non-zero, and nothing for `Original`.
    pub open spec fn size_for(self, manual_w: u32, manual_h: u32) -> Option<(u32, u32)> {
        match self {
            VideoQuality::Original => None,
            VideoQuality::P144 => Some((256, 144)),
            VideoQuality::P240 => Some((426, 240)),
            VideoQuality::P360 => Some((640, 360)),
            VideoQuality::P720 => Some((1280, 720)),
            VideoQuality::P1080 => Some((1920, 1080)),
            VideoQuality::Manual => if manual_w > 0 && manual_h > 0 {
                Some((manual_w, manual_h))
            } else {
                None
            },
        }
    }

    pub open spec fn index_of(self) -> int {
        match self {
            VideoQuality::Original => 0,
            VideoQuality::P144 => 1,
            VideoQuality::P240 => 2,
            VideoQuality::P360 => 3,
            VideoQuality::P720 => 4,
            VideoQuality::P1080 => 5,
            VideoQuality::Manual => 6,
        }
    }

    pub fn label(self) -> (r: &'static str)
        ensures
            r@ == self.label_text(),
    {
        match self {
            VideoQuality::Original => "Original (sin escalar)",
            VideoQuality::P144 => "144p",
            VideoQuality::P240 => "240p",
            VideoQuality::P360 => "360p",
            VideoQuality::P720 => "720p (HD)",
            VideoQuality::P1080 => "1080p (Full HD)",
            VideoQuality::Manual => "Manual",
        }
    }

    /// (width, height) for this quality; `None` for `Original` and for a
    /// manual size with a zero side.
    pub fn dimensions(self, manual_w: u32, manual_h: u32) -> (r: Option<(u32, u32)>)
        ensures
            r == self.size_for(manual_w, manual_h),
    {
        match self {
            VideoQuality::Original => None,
            VideoQuality::P144 => Some((256, 144)),
            VideoQuality::P240 => Some((426, 240)),
            VideoQuality::P360 => Some((640, 360)),
            VideoQuality::P720 => Some((1280, 720)),
            VideoQuality::P1080 => Some((1920, 1080)),
            VideoQuality::Manual => {
                if manual_w > 0 && manual_h > 0 {
                    Some((manual_w, manual_h))
                } else {
                    None
                }
            },
        }
    }

    pub fn position(self) -> (r: usize)
        ensures
            r == self.index_of(),
    {
        match self {
            VideoQuality::Original => 0,
            VideoQuality::P144 => 1,
            VideoQuality::P240 => 2,
            VideoQuality::P360 => 3,
            VideoQuality::P720 => 4,
            VideoQuality::P1080 => 5,
            VideoQuality::Manual => 6,
        }
    }

    pub fn at(i: usize) -> (r: VideoQuality)
        requires
            i < 7,
        ensures
            r.index_of() == i,
    {
        if i == 0 {
            VideoQuality::Original
        } else if i == 1 {
            VideoQuality::P144
        } else if i == 2 {
            VideoQuality::P240
        } else if i == 3 {
            VideoQuality::P360
        } else if i == 4 {
            VideoQuality::P720
        } else if i == 5 {
            VideoQuality::P1080
        } else {
            VideoQuality::Manual
        }
    }
}

/// Hardware resource tier used to group the built-in presets.
#[derive(Debug, Clone, Copy, PartialEq, Eq, Structural)]
pub enum ResourceTier {
    Low,
    Medium,
    High,
}

impl ResourceTier {
    /// Every tier, from the weakest machines to the strongest.
    pub const ALL: [ResourceTier; 3] = [ResourceTier::Low, ResourceTier::Medium, ResourceTier::High];

    pub open spec fn label_text(self) -> Seq<char> {
        match self {
            ResourceTier::Low => "Bajos recursos"@,
            ResourceTier::Medium => "Medios recursos"@,
            ResourceTier::High => "Altos recursos"@,
        }
    }

    pub open spec fn index_of(self) -> int {
        match self {
            ResourceTier::Low => 0,
            ResourceTier::Medium => 1,
            ResourceTier::High => 2,
        }
    }

    pub fn label(self) -> (r: &'static str)
        ensures
            r@ == self.label_text(),
    {
        match self {
            ResourceTier::Low => "Bajos recursos",
            ResourceTier::Medium => "Medios recursos",
            ResourceTier::High => "Altos recursos",
        }
    }

    pub fn position(self) -> (r: usize)
        ensures
            r == self.index_of(),
    {
        match self {
            ResourceTier::Low => 0,
            ResourceTier::Medium => 1,
            ResourceTier::High => 2,
        }
    }

    pub fn at(i: usize) -> (r: ResourceTier)
        requires
            i < 3,
        ensures
            r.index_of() == i,
    {
        if i == 0 {
            ResourceTier::Low
        } else if i == 1 {
            ResourceTier::Medium
        } else {
            ResourceTier::High
        }
    }
}

/// The recording options the GUI and TUI edit.
#[derive(Debug, Clone)]
pub struct RecordingConfig {
    /// Wayland output (monitor) name; empty lets wf-recorder pick.
    pub output: String,
    /// Geometry override `WxH+X+Y`; empty records the whole output.
    pub geometry: String,
    /// Audio source name; empty records no audio.
    pub audio_source: String,
    /// Human-readable description of the audio source.
    pub audio_source_desc: String,
    pub video_format: VideoFormat,
    pub audio_format: AudioFormat,
    /// Frames per second.
    pub fps: u32,
    /// CRF value, lower is better quality.
    pub crf: u32,
    /// Video bitrate hint in kbps, 0 meaning CRF only.
    pub video_bitrate: u32,
    /// Audio bitrate in kbps.
    pub audio_bitrate: u32,
    /// Directory the recording is written to.
    pub output_dir: String,
    pub use_dmabuf: bool,
    pub record_cursor: bool,
    /// Countdown in seconds before recording starts.
    pub countdown_secs: u32,
    /// File name chosen by the user, without extension; empty means a
    /// timestamped name.
    pub custom_filename: String,
    /// x264 encoding preset.
    pub preset: String,
    pub quality: VideoQuality,
    pub manual_width: u32,
    pub manual_height: u32,
}

/// The value of a [`RecordingConfig`].
pub struct RecordingConfigView {
    pub output: Seq<char>,
    pub geometry: Seq<char>,
    pub audio_source: Seq<char>,
    pub audio_source_desc: Seq<char>,
    pub video_format: VideoFormat,
    pub audio_format: AudioFormat,
    pub fps: u32,
    pub crf: u32,
    pub video_bitrate: u32,
    pub audio_bitrate: u32,
    pub output_dir: Seq<char>,
    pub use_dmabuf: bool,
    pub record_cursor: bool,
    pub countdown_secs: u32,
    pub custom_filename: Seq<char>,
    pub preset: Seq<char>,
    pub quality: VideoQuality,
    pub manual_width: u32,
    pub manual_height: u32,
}

impl View for RecordingConfig {
    type V = RecordingConfigView;

    open spec fn view(&self) -> RecordingConfigView {
        RecordingConfigView {
            output: self.output@,
            geometry: self.geometry@,
            audio_source: self.audio_source@,
            audio_source_desc: self.audio_source_desc@,
            video_format: self.video_format,
            audio_format: self.audio_format,
            fps: self.fps,
            crf: self.crf,
            video_bitrate: self.video_bitrate,
            audio_bitrate: self.audio_bitrate,
            output_dir: self.output_dir@,
            use_dmabuf: self.use_dmabuf,
            record_cursor: self.record_cursor,
            countdown_secs: self.countdown_secs,
            custom_filename: self.custom_filename@,
            preset: self.preset@,
            quality: self.quality,
            manual_width: self.manual_width,
            manual_height: self.manual_height,
        }
    }
}

/// The defaults: MP4 with AAC at 30 fps, CRF 20, 128 kbps audio,
/// DMA-BUF and cursor on, no countdown, `superfast`, original size, a
/// 1280x720 manual size, and `dir` as output directory.
pub open spec fn default_recording(dir: Seq<char>) -> RecordingConfigView {
    RecordingConfigView {
        output: seq![],
        geometry: seq![],
        audio_source: seq![],
        audio_source_desc: seq![],
        video_format: VideoFormat::Mp4,
        audio_format: AudioFormat::Aac,
        fps: 30,
        crf: 20,
        video_bitrate: 0,
        audio_bitrate: 128,
        output_dir: dir,
        use_dmabuf: true,
        record_cursor: true,
        countdown_secs: 0,
        custom_filename: seq![],
        preset: "superfast"@,
        quality: VideoQuality::Original,
        manual_width: 1280,
        manual_height: 720,
    }
}

pub open spec fn output_dir_choice(video: Option<Seq<char>>, download: Option<Seq<char>>) -> Seq<
    char,
> {
    match video {
        Some(d) => d,
        None => match download {
            Some(d) => d,
            None => "/tmp"@,
        },
    }
}

pub open spec fn dir_view(d: Option<String>) -> Option<Seq<char>> {
    match d {
        Some(s) => Some(s@),
        None => None,
    }
}

/// The default output directory, chosen from the user's video directory
/// and download directory as the caller looked them up (`None` where there
/// is none): the first that exists, else `/tmp`.
pub fn pick_output_dir(video: Option<String>, download: Option<String>) -> (r: String)
    ensures
        r@ == output_dir_choice(dir_view(video), dir_view(download)),
{
    match video {
        Some(d) => d,
        None => match download {
            Some(d) => d,
            None => String::from_str("/tmp"),
        },
    }
}

impl RecordingConfig {
    /// The default options with `dir` as output directory.
    pub fn with_output_dir(dir: String) -> (r: RecordingConfig)
        ensures
            r@ == default_recording(dir@),
    {
        RecordingConfig {
            output: String::new(),
            geometry: String::new(),
            audio_source: String::new(),
            audio_source_desc: String::new(),
            video_format: VideoFormat::Mp4,
            audio_format: AudioFormat::Aac,
            fps: 30,
            crf: 20,
            video_bitrate: 0,
            audio_bitrate: 128,
            output_dir: dir,
            use_dmabuf: true,
            record_cursor: true,
            countdown_secs: 0,
            custom_filename: String::new(),
            preset: String::from_str("superfast"),
            quality: VideoQuality::Original,
            manual_width: 1280,
            manual_height: 720,
        }
    }

    /// A copy with the same value.
    pub fn copied(&self) -> (r: RecordingConfig)
        ensures
            r@ == self@,
    {
        RecordingConfig {
            output: self.output.clone(),
            geometry: self.geometry.clone(),
            audio_source: self.audio_source.clone(),
            audio_source_desc: self.audio_source_desc.clone(),
            video_format: self.video_format,
            audio_format: self.audio_format,
            fps: self.fps,
            crf: self.crf,
            video_bitrate: self.video_bitrate,
            audio_bitrate: self.audio_bitrate,
            output_dir: self.output_dir.clone(),
            use_dmabuf: self.use_dmabuf,
            record_cursor: self.record_cursor,
            countdown_secs: self.countdown_secs,
            custom_filename: self.custom_filename.clone(),
            preset: self.preset.clone(),
            quality: self.quality,
            manual_width: self.manual_width,
            manual_height: self.manual_height,
        }
    }
}

/// Customizable keyboard shortcuts in GTK accelerator notation.
#[derive(Debug, Clone)]
pub struct Keybinds {
    pub start: String,
    pub stop: String,
    pub pause: String,
}

/// The meaning of an accelerator string that is already lowercase:
/// Ctrl, Alt and Shift flags and the trimmed key name after the last `>`;
/// no result when that key name is empty.
pub open spec fn accel_meaning(s: Seq<char>) -> Option<(bool, bool, bool, Seq<char>)> {
    let ctrl = contains(s, "<control>"@) || contains(s, "<ctrl>"@);
    let alt = contains(s, "<alt>"@) || contains(s, "<mod1>"@);
    let shift = contains(s, "<shift>"@);
    let key = trim(split_on(s, '>').last());
    if key.len() == 0 {
        None
    } else {
        Some((ctrl, alt, shift, key))
    }
}

pub open spec fn accel_view(r: Option<(bool, bool, bool, String)>) -> Option<
    (bool, bool, bool, Seq<char>),
> {
    match r {
        Some((c, a, s, k)) => Some((c, a, s, k@)),
        None => None,
    }
}

impl Keybinds {
    /// The start / stop / pause shortcuts Ctrl+Alt+R, Ctrl+Alt+S and
    /// Ctrl+Alt+P.
    pub fn defaults() -> (r: Keybinds)
        ensures
            r.start@ == "<Control><Alt>r"@,
            r.stop@ == "<Control><Alt>s"@,
            r.pause@ == "<Control><Alt>p"@,
    {
        Keybinds {
            start: String::from_str("<Control><Alt>r"),
            stop: String::from_str("<Control><Alt>s"),
            pause: String::from_str("<Control><Alt>p"),
        }
    }

    /// Parse an accelerator that has already been lowercased.
    pub fn parse_accel_lowercase(s: &str) -> (r: Option<(bool, bool, bool, String)>)
        ensures
            accel_view(r) == accel_meaning(s@),
    {
        let v = chars_of(s);
        let ctrl = contains_chars(&v, &chars_of("<control>")) || contains_chars(
            &v,
            &chars_of("<ctrl>"),
        );
        let alt = contains_chars(&v, &chars_of("<alt>")) || contains_chars(&v, &chars_of("<mod1>"));
        let shift = contains_chars(&v, &chars_of("<shift>"));
        let parts = split_chars(&v, '>');
        proof {
            lemma_split_len_pos(v@, '>');
        }
        let n = parts.len();
        assert(parts@.map_values(|p: Vec<char>| p@)[n - 1] == parts@[n - 1]@);
        let key = trim_chars(&parts[n - 1]);
        if key.len() == 0 {
            None
        } else {
            Some((ctrl, alt, shift, string_of(&key)))
        }
    }

    /// Parse a GTK accelerator string into (ctrl, alt, shift, key name);
    /// the string is lowercased first (Unicode lowercase mapping).
    pub fn parse_accel(s: &str) -> (r: Option<(bool, bool, bool, String)>)
        ensures
            accel_view(r) == accel_meaning(unicode_lowercase(s@)),
            all_ascii(s@) ==> accel_view(r) == accel_meaning(ascii_lower(s@)),
    {
        let lower = to_lowercase(s);
        Keybinds::parse_accel_lowercase(lower.as_str())
    }
}

impl Default for Keybinds {
    fn default() -> (r: Keybinds)
        ensures
            r.start@ == "<Control><Alt>r"@,
            r.stop@ == "<Control><Alt>s"@,
            r.pause@ == "<Control><Alt>p"@,
    {
        Keybinds::defaults()
    }
}

/// The persisted settings: last used recording options and UI choices.
#[derive(Debug, Clone)]
pub struct AppConfig {
    pub recording: RecordingConfig,
    /// Tier whose presets are listed.
    pub tier_filter: ResourceTier,
    /// Whether the X11 warning banner is shown.
    pub show_x11_warning: bool,
    pub keybinds: Keybinds,
}

impl AppConfig {
    /// The default settings with `dir` as output directory: default
    /// recording options, the medium tier, the X11 warning shown and the
    /// default shortcuts.
    pub fn with_output_dir(dir: String) -> (r: AppConfig)
        ensures
            r.recording@ == default_recording(dir@),
            r.tier_filter == ResourceTier::Medium,
            r.show_x11_warning,
            r.keybinds.start@ == "<Control><Alt>r"@,
            r.keybinds.stop@ == "<Control><Alt>s"@,
            r.keybinds.pause@ == "<Control><Alt>p"@,
    {
        AppConfig {
            recording: RecordingConfig::with_output_dir(dir),
            tier_filter: ResourceTier::Medium,
            show_x11_warning: true,
            keybinds: Keybinds::defaults(),
        }
    }
}

// ---------------------------------------------------------------------------
// File names
// ---------------------------------------------------------------------------

pub open spec fn extension_suffix(fmt: VideoFormat) -> Seq<char> {
    seq!['.'] + fmt.extension_text()
}

/// `name`, with the format's extension appended unless it already ends
/// with it (compared ignoring ASCII case).
pub open spec fn with_extension(name: Seq<char>, fmt: VideoFormat) -> Seq<char> {
    if ends_with(ascii_lower(name), extension_suffix(fmt)) {
        name
    } else {
        name + extension_suffix(fmt)
    }
}

pub open spec fn is_unsafe_name_char(c: char) -> bool {
    c == '/' || c == '\\' || c == '\0'
}

pub open spec fn sanitize_char(c: char) -> char {
    if is_unsafe_name_char(c) {
        '_'
    } else {
        c
    }
}

/// Separators and NUL become `_`, then leading dots are removed.
pub open spec fn sanitized(name: Seq<char>) -> Seq<char> {
    strip_leading(name.map_values(|c: char| sanitize_char(c)), '.')
}

/// The output file name for `cfg` when the clock reads `stamp`: the
/// sanitized custom name with the extension ensured, or, when the custom
/// name is blank or sanitizes to nothing, `Recording_<stamp>.<ext>`.
pub open spec fn file_name_for(cfg: RecordingConfigView, stamp: Seq<char>) -> Seq<char> {
    let safe = sanitized(cfg.custom_filename);
    if trim(cfg.custom_filename).len() > 0 && safe.len() > 0 {
        with_extension(safe, cfg.video_format)
    } else {
        "Recording_"@ + stamp + seq!['.'] + cfg.video_format.extension_text()
    }
}

/// Append the right extension for `fmt` unless `name` already ends with
/// it (ignoring ASCII case).
pub fn ensure_extension(name: &str, fmt: VideoFormat) -> (r: String)
    ensures
        r@ == with_extension(name@, fmt),
{
    let v = chars_of(name);
    let mut want: Vec<char> = Vec::new();
    want.push('.');
    let ext = chars_of(fmt.extension());
    let mut i: usize = 0;
    while i < ext.len()
        invariant
            i <= ext@.len(),
            want@ == seq!['.'] + ext@.take(i as int),
        decreases ext.len() - i,
    {
        want.push(ext[i]);
        i = i + 1;
        assert(want@ =~= seq!['.'] + ext@.take(i as int));
    }
    assert(ext@.take(ext@.len() as int) =~= ext@);
    let lower = ascii_lower_chars(&v);
    if ends_with_chars(&lower, &want) {
        string_of(&v)
    } else {
        let mut r = string_of(&v);
        append_chars(&mut r, &want);
        r
    }
}

/// The file name for `cfg` given the formatted time stamp `stamp`.
pub fn default_filename_at(cfg: &RecordingConfig, stamp: &str) -> (r: String)
    ensures
        r@ == file_name_for(cfg@, stamp@),
{
    let custom = chars_of(cfg.custom_filename.as_str());
    let trimmed = trim_chars(&custom);
    if trimmed.len() > 0 {
        let safe = crate::shared::sanitize_filename(cfg.custom_filename.as_str());
        if safe.unicode_len() > 0 {
            return ensure_extension(safe.as_str(), cfg.video_format);
        }
    }
    let mut r = String::from_str("Recording_");
    r.append(stamp);
    push_char(&mut r, '.');
    r.append(cfg.video_format.extension());
    assert(r@ =~= "Recording_"@ + stamp@ + seq!['.'] + cfg.video_format.extension_text());
    r
}

/// The `chrono` format of the time stamp in generated file names,
/// `YYYY-MM-DD_HH-MM-SS` in local time (as in
/// `Recording_2024-07-12_18-30-45.mp4`); the caller reads the clock and
/// hands the stamp to [`default_filename_at`].
pub const STAMP_FORMAT: &'static str = "%Y-%m-%d_%H-%M-%S";

// ---------------------------------------------------------------------------
// Laws
// ---------------------------------------------------------------------------

proof fn lemma_extensions_lowercase(fmt: VideoFormat)
    ensures
        ascii_lower(extension_suffix(fmt)) == extension_suffix(fmt),
{
    reveal_strlit("mp4");
    reveal_strlit("webm");
    reveal_strlit("mkv");
    reveal_strlit("gif");
    assert(ascii_lower(extension_suffix(fmt)) =~= extension_suffix(fmt));
}

/// Ensuring the extension twice is the same as ensuring it once.
pub proof fn law_ensure_extension_idempotent(name: Seq<char>, fmt: VideoFormat)
    ensures
        with_extension(with_extension(name, fmt), fmt) == with_extension(name, fmt),
{
    let suf = extension_suffix(fmt);
    if !ends_with(ascii_lower(name), suf) {
        lemma_extensions_lowercase(fmt);
        let n2 = name + suf;
        assert(ascii_lower(n2) =~= ascii_lower(name) + ascii_lower(suf));
        assert(ascii_lower(n2).skip(ascii_lower(n2).len() - suf.len()) =~= suf);
    }
}

/// The name that comes out always ends with the format's extension, in
/// some ASCII case.
pub proof fn law_ensure_extension_ends_with_extension(name: Seq<char>, fmt: VideoFormat)
    ensures
        ends_with(ascii_lower(with_extension(name, fmt)), extension_suffix(fmt)),
{
    law_ensure_extension_idempotent(name, fmt);
}

/// Every named quality (all but `Original` and `Manual`) scales to a
/// fixed size, whatever the manual size is: its height is the number its
/// label starts with (`1080p (Full HD)` is 1080 lines high) and its width
/// is 16:9 of that height, rounded down.
pub proof fn law_named_quality_size(q: VideoQuality, w: u32, h: u32)
    requires
        q != VideoQuality::Original,
        q != VideoQuality::Manual,
    ensures
        q.size_for(w, h) is Some,
        q.size_for(w, h) == q.size_for(0, 0),
        crate::text::starts_with(q.label_text(), crate::text::decimal(q.size_for(w, h).unwrap().1 as nat) + "p"@),
        q.size_for(w, h).unwrap().0 == (16 * q.size_for(w, h).unwrap().1) / 9,
{
    reveal_strlit("p");
    reveal_strlit("144p");
    reveal_strlit("240p");
    reveal_strlit("360p");
    reveal_strlit("720p (HD)");
    reveal_strlit("1080p (Full HD)");
    reveal_with_fuel(crate::text::decimal, 5);
    let sh = q.size_for(w, h).unwrap().1;
    let d = crate::text::decimal(sh as nat);
    let l = q.label_text();
    let e: Seq<char> = match q {
        VideoQuality::P144 => seq!['1', '4', '4', 'p'],
        VideoQuality::P240 => seq!['2', '4', '0', 'p'],
        VideoQuality::P360 => seq!['3', '6', '0', 'p'],
        VideoQuality::P720 => seq!['7', '2', '0', 'p'],
        _ => seq!['1', '0', '8', '0', 'p'],
    };
    assert(d + "p"@ =~= e);
    assert(l.take(e.len() as int) =~= e);
}

/// A higher quality in the list scales to more lines: the named qualities'
/// sizes are pairwise distinct.
pub proof fn law_named_qualities_grow(q1: VideoQuality, q2: VideoQuality, w: u32, h: u32)
    requires
        q1 != VideoQuality::Original && q1 != VideoQuality::Manual,
        q2 != VideoQuality::Original && q2 != VideoQuality::Manual,
        q1.index_of() < q2.index_of(),
    ensures
        q1.size_for(w, h).unwrap().1 < q2.size_for(w, h).unwrap().1,
        q1.size_for(w, h).unwrap().0 < q2.size_for(w, h).unwrap().0,
        q1.size_for(w, h) != q2.size_for(w, h),
{
}

} // verus!
