//! The terminal UI's state machine: six panels with vim-style navigation,
//! selections inside each panel, a help overlay and a text prompt for the
//! output directory. Key presses change the state and may ask the caller
//! for work that needs the outside world.

use vstd::prelude::*;
use crate::audio::{source_views, AudioSource, AudioSourceView};
use crate::config::{AudioFormat, RecordingConfig, RecordingConfigView, ResourceTier, VideoFormat, VideoQuality};
use crate::presets::{preset_views, Preset, PresetView};
use crate::shared::applied;
use crate::text::{chars_of, push_char, slice_range, string_of, views};

verus! {

/// A panel of the TUI, in focus order.
#[derive(Debug, Clone, Copy, PartialEq, Eq, Hash, Structural)]
pub enum Panel {
    Profile,
    Output,
    Video,
    Audio,
    Input,
    Record,
}

impl Panel {
    /// Every panel in focus order.
    pub const ALL: [Panel; 6] = [
        Panel::Profile,
        Panel::Output,
        Panel::Video,
        Panel::Audio,
        Panel::Input,
        Panel::Record,
    ];

    pub open spec fn index_of(self) -> int {
        match self {
            Panel::Profile => 0,
            Panel::Output => 1,
            Panel::Video => 2,
            Panel::Audio => 3,
            Panel::Input => 4,
            Panel::Record => 5,
        }
    }

    pub open spec fn panel_at(i: int) -> Panel {
        if i == 0 {
            Panel::Profile
        } else if i == 1 {
            Panel::Output
        } else if i == 2 {
            Panel::Video
        } else if i == 3 {
            Panel::Audio
        } else if i == 4 {
            Panel::Input
        } else {
            Panel::Record
        }
    }

    pub open spec fn after(self) -> Panel {
        Panel::panel_at((self.index_of() + 1) % 6)
    }

    pub open spec fn before(self) -> Panel {
        if self.index_of() == 0 {
            Panel::Record
        } else {
            Panel::panel_at(self.index_of() - 1)
        }
    }

    /// The next panel, wrapping around.
    pub fn next(self) -> (r: Panel)
        ensures
            r == self.after(),
    {
        match self {
            Panel::Profile => Panel::Output,
            Panel::Output => Panel::Video,
            Panel::Video => Panel::Audio,
            Panel::Audio => Panel::Input,
            Panel::Input => Panel::Record,
            Panel::Record => Panel::Profile,
        }
    }

    /// The previous panel, wrapping around.
    pub fn prev(self) -> (r: Panel)
        ensures
            r == self.before(),
    {
        match self {
            Panel::Profile => Panel::Record,
            Panel::Output => Panel::Profile,
            Panel::Video => Panel::Output,
            Panel::Audio => Panel::Video,
            Panel::Input => Panel::Audio,
            Panel::Record => Panel::Input,
        }
    }
}

/// Going to the next panel and back, or back and then forward, returns to
/// the same panel.
pub proof fn law_panel_next_prev_inverse(p: Panel)
    ensures
        p.after().before() == p,
        p.before().after() == p,
{
}

/// Six steps forward visit every panel and come back.
pub proof fn law_panel_cycle(p: Panel)
    ensures
        p.after().after().after().after().after().after() == p,
{
}

/// The key of a key press.
#[derive(Debug, Clone, Copy, PartialEq, Eq, Structural)]
pub enum TuiKey {
    Char(char),
    Enter,
    Esc,
    Tab,
    BackTab,
    Up,
    Down,
    Left,
    Right,
    Backspace,
    Other,
}

/// A key press with its modifiers.
#[derive(Debug, Clone, Copy, PartialEq, Eq, Structural)]
pub struct KeyInput {
    pub code: TuiKey,
    /// Control is held.
    pub control: bool,
    /// Some modifier other than Control is held.
    pub other_modifiers: bool,
}

impl KeyInput {
    pub open spec fn plain(self) -> bool {
        !self.control && !self.other_modifiers
    }
}

/// Work a key press asks the caller to do.
#[derive(Debug, Clone, Copy, PartialEq, Eq, Structural)]
pub enum TuiEffect {
    Nothing,
    Quit,
    StartRecording,
    StopRecording,
    TogglePause,
    /// Load the presets of the (new) tier and hand them to `set_presets`.
    ReloadPresets,
    /// Let the user pick a region and hand it to `set_region`.
    PickRegion,
}

/// The text prompt for the output directory.
#[derive(Debug, Clone)]
pub struct InputState {
    pub buffer: String,
    pub label: String,
}

pub struct InputView {
    pub buffer: Seq<char>,
    pub label: Seq<char>,
}

pub open spec fn input_view(i: Option<InputState>) -> Option<InputView> {
    match i {
        Some(s) => Some(InputView { buffer: s.buffer@, label: s.label@ }),
        None => None,
    }
}

/// The TUI's state.
pub struct TuiModel {
    pub config: RecordingConfig,
    pub tier: ResourceTier,
    pub presets: Vec<Preset>,
    /// Names of the Wayland outputs that can be recorded.
    pub outputs: Vec<String>,
    pub audio_sources: Vec<AudioSource>,
    /// Region picked with slurp, empty for the whole output.
    pub geometry: String,
    pub focused: Panel,
    /// 0 is "custom", `i + 1` the preset `i`.
    pub sel_preset: usize,
    /// 0 is "automatic", `i + 1` the output `i`.
    pub sel_output: usize,
    /// 0 is "no audio", `i + 1` the source `i`.
    pub sel_audio: usize,
    pub sel_quality: usize,
    pub sel_video_fmt: usize,
    pub sel_audio_fmt: usize,
    pub sel_tier: usize,
    pub show_help: bool,
    /// Some while the output-directory prompt is open.
    pub input_mode: Option<InputState>,
}

pub struct TuiView {
    pub config: RecordingConfigView,
    pub tier: ResourceTier,
    pub presets: Seq<PresetView>,
    pub outputs: Seq<Seq<char>>,
    pub audio_sources: Seq<AudioSourceView>,
    pub geometry: Seq<char>,
    pub focused: Panel,
    pub sel_preset: usize,
    pub sel_output: usize,
    pub sel_audio: usize,
    pub sel_quality: usize,
    pub sel_video_fmt: usize,
    pub sel_audio_fmt: usize,
    pub sel_tier: usize,
    pub show_help: bool,
    pub input_mode: Option<InputView>,
}

impl View for TuiModel {
    type V = TuiView;

    open spec fn view(&self) -> TuiView {
        TuiView {
            config: self.config@,
            tier: self.tier,
            presets: preset_views(self.presets@),
            outputs: views(self.outputs@),
            audio_sources: source_views(self.audio_sources@),
            geometry: self.geometry@,
            focused: self.focused,
            sel_preset: self.sel_preset,
            sel_output: self.sel_output,
            sel_audio: self.sel_audio,
            sel_quality: self.sel_quality,
            sel_video_fmt: self.sel_video_fmt,
            sel_audio_fmt: self.sel_audio_fmt,
            sel_tier: self.sel_tier,
            show_help: self.show_help,
            input_mode: input_view(self.input_mode),
        }
    }
}

/// Every selection points into its list (the preset, output and source
/// selections may also point one past, at the list's extra first entry).
pub open spec fn well_formed(m: TuiView) -> bool {
    &&& m.presets.len() < usize::MAX
    &&& m.outputs.len() < usize::MAX
    &&& m.audio_sources.len() < usize::MAX
    &&& m.sel_preset <= if m.presets.len() == 0 {
        1
    } else {
        m.presets.len()
    }
    &&& m.sel_output <= m.outputs.len()
    &&& m.sel_audio <= m.audio_sources.len()
    &&& m.sel_quality < 7
    &&& m.sel_video_fmt < 4
    &&& m.sel_audio_fmt < 5
    &&& m.sel_tier < 3
}

// ---------------------------------------------------------------------------
// Transitions
// ---------------------------------------------------------------------------

pub open spec fn is_down(k: TuiKey) -> bool {
    k == TuiKey::Down || k == TuiKey::Char('j')
}

pub open spec fn is_up(k: TuiKey) -> bool {
    k == TuiKey::Up || k == TuiKey::Char('k')
}

pub open spec fn wrap_next(i: int, n: int) -> int {
    (i + 1) % n
}

pub open spec fn wrap_prev(i: int, n: int) -> int {
    if i == 0 {
        n - 1
    } else {
        i - 1
    }
}

/// FPS after an arrow press: the value read as `i32`, moved by `delta`
/// (wrapping), then clamped to 15..=144.
pub open spec fn fps_after(fps: u32, delta: i32) -> u32 {
    let v = (fps as i32).wrapping_add(delta);
    if v < 15 {
        15
    } else if v > 144 {
        144
    } else {
        v as u32
    }
}

/// Countdown cycle 0 → 3 → 5 → 10 → 0 (anything else back to 0).
pub open spec fn next_countdown(c: u32) -> u32 {
    if c == 0 {
        3
    } else if c == 3 {
        5
    } else if c == 5 {
        10
    } else {
        0
    }
}

pub open spec fn preset_count(m: TuiView) -> int {
    if m.presets.len() == 0 {
        1
    } else {
        m.presets.len() as int
    }
}

/// Profile panel: move through "custom" and the presets, jump to the top
/// or bottom, apply the selected preset (syncing the format, codec and
/// quality selections), or switch to the next tier.
pub open spec fn profile_step(m: TuiView, k: TuiKey) -> (TuiView, TuiEffect) {
    let n = preset_count(m);
    if is_down(k) {
        (TuiView { sel_preset: wrap_next(m.sel_preset as int, n + 1) as usize, ..m }, TuiEffect::Nothing)
    } else if is_up(k) {
        (TuiView { sel_preset: (if m.sel_preset == 0 { n } else { m.sel_preset - 1 }) as usize, ..m }, TuiEffect::Nothing)
    } else if k == TuiKey::Char('g') {
        (TuiView { sel_preset: 0, ..m }, TuiEffect::Nothing)
    } else if k == TuiKey::Char('G') {
        (TuiView { sel_preset: n as usize, ..m }, TuiEffect::Nothing)
    } else if k == TuiKey::Enter {
        if m.sel_preset != 0 && m.sel_preset - 1 < m.presets.len() {
            let c = applied(m.config, m.presets[m.sel_preset - 1].config);
            (
                TuiView {
                    config: c,
                    sel_quality: c.quality.index_of() as usize,
                    sel_video_fmt: c.video_format.index_of() as usize,
                    sel_audio_fmt: c.audio_format.index_of() as usize,
                    ..m
                },
                TuiEffect::Nothing,
            )
        } else {
            (m, TuiEffect::Nothing)
        }
    } else if k == TuiKey::Char('t') {
        let t = wrap_next(m.sel_tier as int, 3);
        (
            TuiView { sel_tier: t as usize, tier: crate::presets::tier_at(t), sel_preset: 0, ..m },
            TuiEffect::ReloadPresets,
        )
    } else {
        (m, TuiEffect::Nothing)
    }
}

pub open spec fn with_video_fmt(m: TuiView, i: int) -> TuiView {
    TuiView {
        sel_video_fmt: i as usize,
        config: RecordingConfigView { video_format: crate::presets::format_at(i), ..m.config },
        ..m
    }
}

/// Output panel: cycle the video format, or open the directory prompt.
pub open spec fn output_step(m: TuiView, k: TuiKey) -> (TuiView, TuiEffect) {
    if is_down(k) || k == TuiKey::Char('f') {
        (with_video_fmt(m, wrap_next(m.sel_video_fmt as int, 4)), TuiEffect::Nothing)
    } else if is_up(k) {
        (with_video_fmt(m, wrap_prev(m.sel_video_fmt as int, 4)), TuiEffect::Nothing)
    } else if k == TuiKey::Char('o') {
        (
            TuiView {
                input_mode: Some(
                    InputView { buffer: m.config.output_dir, label: "Ruta de guardado"@ },
                ),
                ..m
            },
            TuiEffect::Nothing,
        )
    } else {
        (m, TuiEffect::Nothing)
    }
}

pub open spec fn quality_at(i: int) -> VideoQuality {
    if i == 0 {
        VideoQuality::Original
    } else if i == 1 {
        VideoQuality::P144
    } else if i == 2 {
        VideoQuality::P240
    } else if i == 3 {
        VideoQuality::P360
    } else if i == 4 {
        VideoQuality::P720
    } else if i == 5 {
        VideoQuality::P1080
    } else {
        VideoQuality::Manual
    }
}

pub open spec fn with_quality(m: TuiView, i: int) -> TuiView {
    TuiView {
        sel_quality: i as usize,
        config: RecordingConfigView { quality: quality_at(i), ..m.config },
        ..m
    }
}

pub open spec fn with_config(m: TuiView, c: RecordingConfigView) -> TuiView {
    TuiView { config: c, ..m }
}

/// Video panel: cycle the quality, change FPS by one within 15..=144,
/// toggle DMA-BUF or the cursor, cycle the countdown.
pub open spec fn video_step(m: TuiView, k: TuiKey) -> (TuiView, TuiEffect) {
    let c = m.config;
    if is_down(k) {
        (with_quality(m, wrap_next(m.sel_quality as int, 7)), TuiEffect::Nothing)
    } else if is_up(k) {
        (with_quality(m, wrap_prev(m.sel_quality as int, 7)), TuiEffect::Nothing)
    } else if k == TuiKey::Left || k == TuiKey::Char('h') {
        (with_config(m, RecordingConfigView { fps: fps_after(c.fps, -1i32), ..c }), TuiEffect::Nothing)
    } else if k == TuiKey::Right || k == TuiKey::Char('l') {
        (with_config(m, RecordingConfigView { fps: fps_after(c.fps, 1i32), ..c }), TuiEffect::Nothing)
    } else if k == TuiKey::Char('d') {
        (with_config(m, RecordingConfigView { use_dmabuf: !c.use_dmabuf, ..c }), TuiEffect::Nothing)
    } else if k == TuiKey::Char('c') {
        (
            with_config(m, RecordingConfigView { record_cursor: !c.record_cursor, ..c }),
            TuiEffect::Nothing,
        )
    } else if k == TuiKey::Char('t') {
        (
            with_config(m, RecordingConfigView { countdown_secs: next_countdown(c.countdown_secs), ..c }),
            TuiEffect::Nothing,
        )
    } else {
        (m, TuiEffect::Nothing)
    }
}

pub open spec fn audio_format_at(i: int) -> AudioFormat {
    if i == 0 {
        AudioFormat::Aac
    } else if i == 1 {
        AudioFormat::Mp3
    } else if i == 2 {
        AudioFormat::Ogg
    } else if i == 3 {
        AudioFormat::Opus
    } else {
        AudioFormat::NoAudio
    }
}

pub open spec fn with_audio_fmt(m: TuiView, i: int) -> TuiView {
    TuiView {
        sel_audio_fmt: i as usize,
        config: RecordingConfigView { audio_format: audio_format_at(i), ..m.config },
        ..m
    }
}

/// Audio panel: cycle the codec, or cycle the source through "no audio"
/// and the sources.
pub open spec fn audio_step(m: TuiView, k: TuiKey) -> (TuiView, TuiEffect) {
    if is_down(k) {
        (with_audio_fmt(m, wrap_next(m.sel_audio_fmt as int, 5)), TuiEffect::Nothing)
    } else if is_up(k) {
        (with_audio_fmt(m, wrap_prev(m.sel_audio_fmt as int, 5)), TuiEffect::Nothing)
    } else if k == TuiKey::Char('a') {
        let s = wrap_next(m.sel_audio as int, m.audio_sources.len() + 1int);
        let c = if s == 0 {
            RecordingConfigView { audio_source: seq![], audio_source_desc: seq![], ..m.config }
        } else {
            RecordingConfigView {
                audio_source: m.audio_sources[s - 1].name,
                audio_source_desc: m.audio_sources[s - 1].description,
                ..m.config
            }
        };
        (TuiView { sel_audio: s as usize, config: c, ..m }, TuiEffect::Nothing)
    } else {
        (m, TuiEffect::Nothing)
    }
}

pub open spec fn with_output(m: TuiView, s: int) -> TuiView {
    TuiView {
        sel_output: s as usize,
        config: RecordingConfigView {
            output: if s == 0 {
                seq![]
            } else {
                m.outputs[s - 1]
            },
            ..m.config
        },
        ..m
    }
}

/// Input panel: cycle the monitor through "automatic" and the outputs,
/// pick a region, or toggle pause.
pub open spec fn input_panel_step(m: TuiView, k: TuiKey) -> (TuiView, TuiEffect) {
    let n = m.outputs.len() + 1int;
    if is_down(k) {
        (with_output(m, wrap_next(m.sel_output as int, n)), TuiEffect::Nothing)
    } else if is_up(k) {
        (with_output(m, wrap_prev(m.sel_output as int, n)), TuiEffect::Nothing)
    } else if k == TuiKey::Char('g') {
        (m, TuiEffect::PickRegion)
    } else if k == TuiKey::Char(' ') {
        (m, TuiEffect::TogglePause)
    } else {
        (m, TuiEffect::Nothing)
    }
}

/// Record panel: Enter records, Space toggles pause.
pub open spec fn record_step(m: TuiView, k: TuiKey) -> (TuiView, TuiEffect) {
    if k == TuiKey::Enter {
        (m, TuiEffect::StartRecording)
    } else if k == TuiKey::Char(' ') {
        (m, TuiEffect::TogglePause)
    } else {
        (m, TuiEffect::Nothing)
    }
}

pub open spec fn panel_step(m: TuiView, k: TuiKey) -> (TuiView, TuiEffect) {
    match m.focused {
        Panel::Profile => profile_step(m, k),
        Panel::Output => output_step(m, k),
        Panel::Video => video_step(m, k),
        Panel::Audio => audio_step(m, k),
        Panel::Input => input_panel_step(m, k),
        Panel::Record => record_step(m, k),
    }
}

/// The directory prompt: Enter sets the output directory and closes it,
/// Esc closes it, Backspace deletes the last character, a character is
/// appended.
pub open spec fn prompt_step(m: TuiView, i: InputView, k: TuiKey) -> TuiView {
    match k {
        TuiKey::Enter => TuiView {
            config: RecordingConfigView { output_dir: i.buffer, ..m.config },
            input_mode: None,
            ..m
        },
        TuiKey::Esc => TuiView { input_mode: None, ..m },
        TuiKey::Backspace => TuiView {
            input_mode: Some(
                InputView {
                    buffer: if i.buffer.len() > 0 {
                        i.buffer.drop_last()
                    } else {
                        i.buffer
                    },
                    ..i
                },
            ),
            ..m
        },
        TuiKey::Char(c) => TuiView {
            input_mode: Some(InputView { buffer: i.buffer.push(c), ..i }),
            ..m
        },
        _ => m,
    }
}

/// One key press: the prompt takes every key while open; `q` and Ctrl+C
/// quit; `?` toggles and Esc closes the help, which swallows other keys;
/// plain `r`, `s`, `p` record, stop and pause; plain Tab/`l` and
/// BackTab/`h` change panel; anything else goes to the focused panel.
pub open spec fn key_step(m: TuiView, key: KeyInput) -> (TuiView, TuiEffect) {
    let k = key.code;
    match m.input_mode {
        Some(i) => (prompt_step(m, i, k), TuiEffect::Nothing),
        None => if k == TuiKey::Char('q') || (k == TuiKey::Char('c') && key.control) {
            (m, TuiEffect::Quit)
        } else if k == TuiKey::Char('?') {
            (TuiView { show_help: !m.show_help, ..m }, TuiEffect::Nothing)
        } else if k == TuiKey::Esc {
            (TuiView { show_help: false, ..m }, TuiEffect::Nothing)
        } else if m.show_help {
            (m, TuiEffect::Nothing)
        } else if k == TuiKey::Char('r') && key.plain() {
            (m, TuiEffect::StartRecording)
        } else if k == TuiKey::Char('s') && key.plain() {
            (m, TuiEffect::StopRecording)
        } else if k == TuiKey::Char('p') && key.plain() {
            (m, TuiEffect::TogglePause)
        } else if (k == TuiKey::Tab || k == TuiKey::Char('l')) && key.plain() {
            (TuiView { focused: m.focused.after(), ..m }, TuiEffect::Nothing)
        } else if (k == TuiKey::BackTab || k == TuiKey::Char('h')) && key.plain() {
            (TuiView { focused: m.focused.before(), ..m }, TuiEffect::Nothing)
        } else {
            panel_step(m, k)
        },
    }
}

// ---------------------------------------------------------------------------
// Executable model
// ---------------------------------------------------------------------------

impl TuiModel {
    /// A fresh model: the Profile panel focused, "custom" preset, automatic
    /// output, no audio source, selections matching `config`, the tier's
    /// selection matching `tier`.
    pub fn new(
        config: RecordingConfig,
        tier: ResourceTier,
        presets: Vec<Preset>,
        outputs: Vec<String>,
        audio_sources: Vec<AudioSource>,
    ) -> (r: TuiModel)
        requires
            presets@.len() < usize::MAX,
            outputs@.len() < usize::MAX,
            audio_sources@.len() < usize::MAX,
        ensures
            well_formed(r@),
            r@.config == config@,
            r@.tier == tier,
            r@.presets == preset_views(presets@),
            r@.outputs == views(outputs@),
            r@.audio_sources == source_views(audio_sources@),
            r@.geometry == Seq::<char>::empty(),
            r@.focused == Panel::Profile,
            r@.sel_preset == 0 && r@.sel_output == 0 && r@.sel_audio == 0,
            r@.sel_quality == config.quality.index_of(),
            r@.sel_video_fmt == config.video_format.index_of(),
            r@.sel_audio_fmt == config.audio_format.index_of(),
            r@.sel_tier == tier.index_of(),
            !r@.show_help,
            r@.input_mode is None,
    {
        let sel_quality = config.quality.position();
        let sel_video_fmt = config.video_format.position();
        let sel_audio_fmt = config.audio_format.position();
        let sel_tier = tier.position();
        let r = TuiModel {
            config,
            tier,
            presets,
            outputs,
            audio_sources,
            geometry: String::new(),
            focused: Panel::Profile,
            sel_preset: 0,
            sel_output: 0,
            sel_audio: 0,
            sel_quality,
            sel_video_fmt,
            sel_audio_fmt,
            sel_tier,
            show_help: false,
            input_mode: None,
        };
        r
    }

    /// Replace the preset list (after a tier change) and select "custom".
    pub fn set_presets(&mut self, presets: Vec<Preset>)
        requires
            well_formed(old(self)@),
            presets@.len() < usize::MAX,
        ensures
            final(self)@ == (TuiView { presets: preset_views(presets@), sel_preset: 0, ..old(self)@ }),
            well_formed(final(self)@),
    {
        self.presets = presets;
        self.sel_preset = 0;
    }

    /// Record the region picked with slurp.
    pub fn set_region(&mut self, geometry: String)
        ensures
            final(self)@ == (TuiView {
                geometry: geometry@,
                config: RecordingConfigView { geometry: geometry@, ..old(self)@.config },
                ..old(self)@
            }),
    {
        self.geometry = geometry.clone();
        self.config.geometry = geometry;
    }

    /// Focus the panel the user clicked.
    pub fn focus(&mut self, p: Panel)
        ensures
            final(self)@ == (TuiView { focused: p, ..old(self)@ }),
    {
        self.focused = p;
    }

    fn prompt_key(&mut self, k: TuiKey)
        requires
            old(self)@.input_mode is Some,
        ensures
            final(self)@ == prompt_step(old(self)@, old(self)@.input_mode->Some_0, k),
    {
        match k {
            TuiKey::Enter => {
                let buf = match &self.input_mode {
                    Some(i) => i.buffer.clone(),
                    None => String::new(),
                };
                self.config.output_dir = buf;
                self.input_mode = None;
            },
            TuiKey::Esc => {
                self.input_mode = None;
            },
            TuiKey::Backspace => {
                match &mut self.input_mode {
                    Some(i) => {
                        let v = chars_of(i.buffer.as_str());
                        if v.len() > 0 {
                            let shorter = slice_range(&v, 0, v.len() - 1);
                            assert(shorter@ =~= v@.drop_last());
                            i.buffer = string_of(&shorter);
                        }
                    },
                    None => {},
                }
            },
            TuiKey::Char(c) => {
                match &mut self.input_mode {
                    Some(i) => {
                        push_char(&mut i.buffer, c);
                    },
                    None => {},
                }
            },
            _ => {},
        }
    }

    fn set_video_fmt(&mut self, i: usize)
        requires
            i < 4,
        ensures
            final(self)@ == with_video_fmt(old(self)@, i as int),
    {
        self.sel_video_fmt = i;
        self.config.video_format = VideoFormat::at(i);
    }

    fn set_quality(&mut self, i: usize)
        requires
            i < 7,
        ensures
            final(self)@ == with_quality(old(self)@, i as int),
    {
        self.sel_quality = i;
        self.config.quality = VideoQuality::at(i);
    }

    fn set_audio_fmt(&mut self, i: usize)
        requires
            i < 5,
        ensures
            final(self)@ == with_audio_fmt(old(self)@, i as int),
    {
        self.sel_audio_fmt = i;
        self.config.audio_format = AudioFormat::at(i);
    }

    fn set_output(&mut self, s: usize)
        requires
            s <= old(self)@.outputs.len(),
        ensures
            final(self)@ == with_output(old(self)@, s as int),
    {
        self.sel_output = s;
        if s == 0 {
            self.config.output = String::new();
        } else {
            assert(views(self.outputs@)[s - 1] == self.outputs@[s - 1]@);
            self.config.output = self.outputs[s - 1].clone();
        }
    }

    fn profile_key(&mut self, k: TuiKey) -> (r: TuiEffect)
        requires
            well_formed(old(self)@),
        ensures
            (final(self)@, r) == profile_step(old(self)@, k),
    {
        let n = if self.presets.len() == 0 {
            1
        } else {
            self.presets.len()
        };
        if k == TuiKey::Down || k == TuiKey::Char('j') {
            self.sel_preset = (self.sel_preset + 1) % (n + 1);
        } else if k == TuiKey::Up || k == TuiKey::Char('k') {
            self.sel_preset = if self.sel_preset == 0 {
                n
            } else {
                self.sel_preset - 1
            };
        } else if k == TuiKey::Char('g') {
            self.sel_preset = 0;
        } else if k == TuiKey::Char('G') {
            self.sel_preset = n;
        } else if k == TuiKey::Enter {
            if self.sel_preset != 0 && self.sel_preset - 1 < self.presets.len() {
                let i = self.sel_preset - 1;
                assert(preset_views(self.presets@)[i as int] == self.presets@[i as int]@);
                crate::shared::apply_preset(&mut self.config, &self.presets[i]);
                self.sel_quality = self.config.quality.position();
                self.sel_video_fmt = self.config.video_format.position();
                self.sel_audio_fmt = self.config.audio_format.position();
            }
        } else if k == TuiKey::Char('t') {
            self.sel_tier = (self.sel_tier + 1) % 3;
            self.tier = ResourceTier::at(self.sel_tier);
            self.sel_preset = 0;
            return TuiEffect::ReloadPresets;
        }
        TuiEffect::Nothing
    }

    fn output_key(&mut self, k: TuiKey)
        requires
            well_formed(old(self)@),
        ensures
            (final(self)@, TuiEffect::Nothing) == output_step(old(self)@, k),
    {
        if k == TuiKey::Down || k == TuiKey::Char('j') || k == TuiKey::Char('f') {
            self.set_video_fmt((self.sel_video_fmt + 1) % 4);
        } else if k == TuiKey::Up || k == TuiKey::Char('k') {
            let i = if self.sel_video_fmt == 0 {
                3
            } else {
                self.sel_video_fmt - 1
            };
            self.set_video_fmt(i);
        } else if k == TuiKey::Char('o') {
            self.input_mode = Some(
                InputState {
                    buffer: self.config.output_dir.clone(),
                    label: String::from_str("Ruta de guardado"),
                },
            );
        }
    }

    fn video_key(&mut self, k: TuiKey)
        requires
            well_formed(old(self)@),
        ensures
            (final(self)@, TuiEffect::Nothing) == video_step(old(self)@, k),
    {
        if k == TuiKey::Down || k == TuiKey::Char('j') {
            self.set_quality((self.sel_quality + 1) % 7);
        } else if k == TuiKey::Up || k == TuiKey::Char('k') {
            let i = if self.sel_quality == 0 {
                6
            } else {
                self.sel_quality - 1
            };
            self.set_quality(i);
        } else if k == TuiKey::Left || k == TuiKey::Char('h') {
            self.config.fps = step_fps(self.config.fps, -1);
        } else if k == TuiKey::Right || k == TuiKey::Char('l') {
            self.config.fps = step_fps(self.config.fps, 1);
        } else if k == TuiKey::Char('d') {
            self.config.use_dmabuf = !self.config.use_dmabuf;
        } else if k == TuiKey::Char('c') {
            self.config.record_cursor = !self.config.record_cursor;
        } else if k == TuiKey::Char('t') {
            let c = self.config.countdown_secs;
            self.config.countdown_secs = if c == 0 {
                3
            } else if c == 3 {
                5
            } else if c == 5 {
                10
            } else {
                0
            };
        }
    }

    fn audio_key(&mut self, k: TuiKey)
        requires
            well_formed(old(self)@),
        ensures
            (final(self)@, TuiEffect::Nothing) == audio_step(old(self)@, k),
    {
        if k == TuiKey::Down || k == TuiKey::Char('j') {
            self.set_audio_fmt((self.sel_audio_fmt + 1) % 5);
        } else if k == TuiKey::Up || k == TuiKey::Char('k') {
            let i = if self.sel_audio_fmt == 0 {
                4
            } else {
                self.sel_audio_fmt - 1
            };
            self.set_audio_fmt(i);
        } else if k == TuiKey::Char('a') {
            let n = self.audio_sources.len() + 1;
            self.sel_audio = (self.sel_audio + 1) % n;
            if self.sel_audio == 0 {
                self.config.audio_source = String::new();
                self.config.audio_source_desc = String::new();
            } else {
                let i = self.sel_audio - 1;
                assert(source_views(self.audio_sources@)[i as int] == self.audio_sources@[i as int]@);
                self.config.audio_source = self.audio_sources[i].name.clone();
                self.config.audio_source_desc = self.audio_sources[i].description.clone();
            }
        }
    }

    fn input_panel_key(&mut self, k: TuiKey) -> (r: TuiEffect)
        requires
            well_formed(old(self)@),
        ensures
            (final(self)@, r) == input_panel_step(old(self)@, k),
    {
        let n = self.outputs.len() + 1;
        if k == TuiKey::Down || k == TuiKey::Char('j') {
            self.set_output((self.sel_output + 1) % n);
            TuiEffect::Nothing
        } else if k == TuiKey::Up || k == TuiKey::Char('k') {
            let s = if self.sel_output == 0 {
                n - 1
            } else {
                self.sel_output - 1
            };
            self.set_output(s);
            TuiEffect::Nothing
        } else if k == TuiKey::Char('g') {
            TuiEffect::PickRegion
        } else if k == TuiKey::Char(' ') {
            TuiEffect::TogglePause
        } else {
            TuiEffect::Nothing
        }
    }

    /// Handle one key press; returns the work the caller must do.
    pub fn handle_key(&mut self, key: KeyInput) -> (r: TuiEffect)
        requires
            well_formed(old(self)@),
        ensures
            (final(self)@, r) == key_step(old(self)@, key),
            well_formed(final(self)@),
    {
        let k = key.code;
        if self.input_mode.is_some() {
            self.prompt_key(k);
            return TuiEffect::Nothing;
        }
        let plain = !key.control && !key.other_modifiers;
        if k == TuiKey::Char('q') || (k == TuiKey::Char('c') && key.control) {
            return TuiEffect::Quit;
        }
        if k == TuiKey::Char('?') {
            self.show_help = !self.show_help;
            return TuiEffect::Nothing;
        }
        if k == TuiKey::Esc {
            self.show_help = false;
            return TuiEffect::Nothing;
        }
        if self.show_help {
            return TuiEffect::Nothing;
        }
        if k == TuiKey::Char('r') && plain {
            return TuiEffect::StartRecording;
        }
        if k == TuiKey::Char('s') && plain {
            return TuiEffect::StopRecording;
        }
        if k == TuiKey::Char('p') && plain {
            return TuiEffect::TogglePause;
        }
        if (k == TuiKey::Tab || k == TuiKey::Char('l')) && plain {
            self.focused = self.focused.next();
            return TuiEffect::Nothing;
        }
        if (k == TuiKey::BackTab || k == TuiKey::Char('h')) && plain {
            self.focused = self.focused.prev();
            return TuiEffect::Nothing;
        }
        match self.focused {
            Panel::Profile => self.profile_key(k),
            Panel::Output => {
                self.output_key(k);
                TuiEffect::Nothing
            },
            Panel::Video => {
                self.video_key(k);
                TuiEffect::Nothing
            },
            Panel::Audio => {
                self.audio_key(k);
                TuiEffect::Nothing
            },
            Panel::Input => self.input_panel_key(k),
            Panel::Record => {
                if k == TuiKey::Enter {
                    TuiEffect::StartRecording
                } else if k == TuiKey::Char(' ') {
                    TuiEffect::TogglePause
                } else {
                    TuiEffect::Nothing
                }
            },
        }
    }
}

/// FPS after an arrow press (see [`fps_after`]).
pub fn step_fps(fps: u32, delta: i32) -> (r: u32)
    ensures
        r == fps_after(fps, delta),
{
    let v = (fps as i32).wrapping_add(delta);
    if v < 15 {
        15
    } else if v > 144 {
        144
    } else {
        v as u32
    }
}

/// FPS changed with the arrows always stays within 15..=144.
pub proof fn law_fps_in_range(fps: u32, delta: i32)
    ensures
        15 <= fps_after(fps, delta) <= 144,
{
}

/// Key presses keep every selection inside its list.
pub proof fn law_key_keeps_well_formed(m: TuiView, key: KeyInput)
    requires
        well_formed(m),
    ensures
        well_formed(key_step(m, key).0),
{
}

/// Opening the output-directory prompt and cancelling it with Esc leaves
/// the model as it was.
pub proof fn law_prompt_cancel_restores(m: TuiView)
    requires
        m.input_mode is None,
        !m.show_help,
        m.focused == Panel::Output,
    ensures
        ({
            let opened = key_step(m, KeyInput { code: TuiKey::Char('o'), control: false, other_modifiers: false });
            &&& opened.0.input_mode is Some
            &&& key_step(opened.0, KeyInput { code: TuiKey::Esc, control: false, other_modifiers: false }).0 == m
        }),
{
}

/// In the prompt, typing a character and deleting it with Backspace gives
/// the buffer back.
pub proof fn law_prompt_type_then_delete(m: TuiView, c: char)
    requires
        m.input_mode is Some,
    ensures
        ({
            let typed = key_step(m, KeyInput { code: TuiKey::Char(c), control: false, other_modifiers: false }).0;
            key_step(typed, KeyInput { code: TuiKey::Backspace, control: false, other_modifiers: false }).0 == m
        }),
{
    let i = m.input_mode->Some_0;
    assert(i.buffer.push(c).drop_last() =~= i.buffer);
}

/// In the Video panel, with no prompt or help open, a plain `c` turns
/// cursor recording on or off and changes nothing else; pressing it twice
/// gives the model back.
pub proof fn law_video_c_toggles_cursor(m: TuiView)
    requires
        m.input_mode is None,
        !m.show_help,
        m.focused == Panel::Video,
    ensures
        ({
            let c = KeyInput { code: TuiKey::Char('c'), control: false, other_modifiers: false };
            let (once, effect) = key_step(m, c);
            &&& effect == TuiEffect::Nothing
            &&& once.config.record_cursor == !m.config.record_cursor
            &&& once == TuiView {
                config: RecordingConfigView { record_cursor: !m.config.record_cursor, ..m.config },
                ..m
            }
            &&& key_step(once, c).0 == m
        }),
{
}

} // verus!
