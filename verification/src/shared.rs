//! Helpers shared by the GUI and the TUI: applying a preset, guessing the
//! tier of a configuration and sanitizing a user-supplied file name.

use vstd::prelude::*;
use crate::config::{
    is_unsafe_name_char, sanitize_char, sanitized, RecordingConfig, RecordingConfigView,
    ResourceTier,
};
use crate::text::{chars_of, string_of, strip_leading, strip_leading_chars};

verus! {

/// Lemma: the sanitized name holds no separator and no NUL, and does not
/// start with a dot.
pub proof fn law_sanitized_is_safe(name: Seq<char>)
    ensures
        forall|i: int|
            0 <= i < sanitized(name).len() ==> !is_unsafe_name_char(#[trigger] sanitized(name)[i]),
        sanitized(name).len() > 0 ==> sanitized(name)[0] != '.',
{
    let m = name.map_values(|c: char| sanitize_char(c));
    lemma_strip_leading_suffix(m, '.');
}

/// `strip_leading(s, c)` is a suffix of `s` that does not start with `c`.
pub proof fn lemma_strip_leading_suffix(s: Seq<char>, c: char)
    ensures
        strip_leading(s, c).len() <= s.len(),
        strip_leading(s, c) == s.skip(s.len() - strip_leading(s, c).len()),
        strip_leading(s, c).len() > 0 ==> strip_leading(s, c)[0] != c,
    decreases s.len(),
{
    if s.len() > 0 && s[0] == c {
        lemma_strip_leading_suffix(s.drop_first(), c);
        let t = strip_leading(s.drop_first(), c);
        assert(s.drop_first().skip(s.drop_first().len() - t.len()) =~= s.skip(s.len() - t.len()));
    } else {
        assert(s.skip(0) =~= s);
    }
}

/// Replace `/`, `\` and NUL with `_` and drop leading dots, so the name
/// cannot leave the output directory.
pub fn sanitize_filename(name: &str) -> (r: String)
    ensures
        r@ == sanitized(name@),
{
    let v = chars_of(name);
    let mut m: Vec<char> = Vec::new();
    let mut i: usize = 0;
    while i < v.len()
        invariant
            i <= v@.len(),
            m@ == v@.take(i as int).map_values(|c: char| sanitize_char(c)),
        decreases v.len() - i,
    {
        let c = v[i];
        if c == '/' || c == '\\' || c == '\0' {
            m.push('_');
        } else {
            m.push(c);
        }
        i = i + 1;
        assert(m@ =~= v@.take(i as int).map_values(|c: char| sanitize_char(c)));
    }
    assert(v@.take(v@.len() as int) =~= v@);
    let stripped = strip_leading_chars(&m, '.');
    string_of(&stripped)
}

/// The value of `cfg` after applying the recording fields of `p`: format,
/// codec, fps, CRF, bitrates, DMA-BUF, x264 preset and quality come from
/// `p`; every other field keeps its value.
pub open spec fn applied(cfg: RecordingConfigView, p: RecordingConfigView) -> RecordingConfigView {
    RecordingConfigView {
        video_format: p.video_format,
        audio_format: p.audio_format,
        fps: p.fps,
        crf: p.crf,
        video_bitrate: p.video_bitrate,
        audio_bitrate: p.audio_bitrate,
        use_dmabuf: p.use_dmabuf,
        preset: p.preset,
        quality: p.quality,
        ..cfg
    }
}

/// Copy a preset's recording fields onto `cfg`, keeping the session fields
/// (output directory, audio source, output, geometry, ...).
pub fn apply_preset(cfg: &mut RecordingConfig, preset: &crate::presets::Preset)
    ensures
        final(cfg)@ == applied(old(cfg)@, preset.config@),
{
    cfg.video_format = preset.config.video_format;
    cfg.audio_format = preset.config.audio_format;
    cfg.fps = preset.config.fps;
    cfg.crf = preset.config.crf;
    cfg.video_bitrate = preset.config.video_bitrate;
    cfg.audio_bitrate = preset.config.audio_bitrate;
    cfg.use_dmabuf = preset.config.use_dmabuf;
    cfg.preset = preset.config.preset.clone();
    cfg.quality = preset.config.quality;
}

pub open spec fn tier_of(fps: u32, crf: u32) -> ResourceTier {
    if fps >= 60 && crf <= 20 {
        ResourceTier::High
    } else if fps >= 30 && crf <= 25 {
        ResourceTier::Medium
    } else {
        ResourceTier::Low
    }
}

/// The tier a configuration looks like, from its FPS and CRF.
pub fn infer_tier(cfg: &RecordingConfig) -> (r: ResourceTier)
    ensures
        r == tier_of(cfg.fps, cfg.crf),
{
    if cfg.fps >= 60 && cfg.crf <= 20 {
        ResourceTier::High
    } else if cfg.fps >= 30 && cfg.crf <= 25 {
        ResourceTier::Medium
    } else {
        ResourceTier::Low
    }
}

/// Applying a preset keeps the session fields: output, geometry, audio
/// source, output directory, cursor, countdown, custom name and manual
/// size.
pub proof fn law_apply_preset_keeps_session(cfg: RecordingConfigView, p: RecordingConfigView)
    ensures
        applied(cfg, p).output == cfg.output,
        applied(cfg, p).geometry == cfg.geometry,
        applied(cfg, p).audio_source == cfg.audio_source,
        applied(cfg, p).audio_source_desc == cfg.audio_source_desc,
        applied(cfg, p).output_dir == cfg.output_dir,
        applied(cfg, p).record_cursor == cfg.record_cursor,
        applied(cfg, p).countdown_secs == cfg.countdown_secs,
        applied(cfg, p).custom_filename == cfg.custom_filename,
        applied(cfg, p).manual_width == cfg.manual_width,
        applied(cfg, p).manual_height == cfg.manual_height,
{
}

} // verus!
