//! Presets: one built-in preset per resource tier and video format, plus
//! the user's saved presets, listed after the built-ins in name order.

use vstd::prelude::*;
use crate::config::{
    default_recording, AudioFormat, RecordingConfig, RecordingConfigView, ResourceTier,
    VideoFormat, VideoQuality,
};
use crate::text::{
    all_ascii, append_chars, ascii_lower, chars_of, find, joined_path, lemma_find_from_range,
    lemma_find_from_skip, push_char, split_chars, split_on, string_of, to_lowercase,
    unicode_lowercase,
};

verus! {

/// A named recording configuration tagged with a tier.
#[derive(Debug, Clone)]
pub struct Preset {
    /// Stable id, also the file name of a saved user preset.
    pub id: String,
    /// Name shown in the UI.
    pub name: String,
    pub tier: ResourceTier,
    /// Built-in presets cannot be deleted.
    pub builtin: bool,
    /// The options applied when the preset is chosen.
    pub config: RecordingConfig,
}

pub struct PresetView {
    pub id: Seq<char>,
    pub name: Seq<char>,
    pub tier: ResourceTier,
    pub builtin: bool,
    pub config: RecordingConfigView,
}

impl View for Preset {
    type V = PresetView;

    open spec fn view(&self) -> PresetView {
        PresetView {
            id: self.id@,
            name: self.name@,
            tier: self.tier,
            builtin: self.builtin,
            config: self.config@,
        }
    }
}

pub open spec fn preset_views(v: Seq<Preset>) -> Seq<PresetView> {
    v.map_values(|p: Preset| p@)
}

impl Preset {
    /// Where the user preset `id` is stored inside `dir`: `<dir>/<id>.json`.
    pub fn user_path(dir: &str, id: &str) -> (r: String)
        ensures
            r@ == joined_path(dir@, id@ + ".json"@),
    {
        let mut name = String::from_str(id);
        name.append(".json");
        crate::text::join_path(dir, name.as_str())
    }

    /// A preset read from the user's preset directory: whatever the file
    /// says, it is not built in.
    pub fn loaded_user(mut p: Preset) -> (r: Preset)
        ensures
            r@ == (PresetView { builtin: false, ..p@ }),
    {
        p.builtin = false;
        p
    }
}

// ---------------------------------------------------------------------------
// Built-in presets
// ---------------------------------------------------------------------------

pub open spec fn tier_key(t: ResourceTier) -> Seq<char> {
    match t {
        ResourceTier::Low => "low"@,
        ResourceTier::Medium => "medium"@,
        ResourceTier::High => "high"@,
    }
}

pub open spec fn tier_at(i: int) -> ResourceTier {
    if i == 0 {
        ResourceTier::Low
    } else if i == 1 {
        ResourceTier::Medium
    } else {
        ResourceTier::High
    }
}

pub open spec fn format_at(i: int) -> VideoFormat {
    if i == 0 {
        VideoFormat::Mp4
    } else if i == 1 {
        VideoFormat::Webm
    } else if i == 2 {
        VideoFormat::Mkv
    } else {
        VideoFormat::Gif
    }
}

/// Id of a built-in preset: tier key, `-`, format extension
/// (e.g. `low-mp4`).
pub open spec fn builtin_id(t: ResourceTier, f: VideoFormat) -> Seq<char> {
    tier_key(t) + "-"@ + f.extension_text()
}

/// Audio of the high tier: Opus, except in an MP4 container (MP4, and GIF
/// which is captured to an intermediate MP4), where Opus does not work and
/// AAC is used.
pub open spec fn high_tier_audio(f: VideoFormat) -> AudioFormat {
    if f == VideoFormat::Mp4 || f == VideoFormat::Gif {
        AudioFormat::Aac
    } else {
        AudioFormat::Opus
    }
}

/// The recording options of a built-in preset, `dir` being the output
/// directory:
/// low: 24 fps, CRF 28, MP3 96 kbps, no DMA-BUF, `ultrafast`, 720p;
/// medium: 30 fps, CRF 23, AAC 128 kbps, DMA-BUF, `superfast`, 1080p;
/// high: 60 fps, CRF 18, Opus 192 kbps (AAC in MP4, see
/// [`high_tier_audio`]), DMA-BUF, `veryfast`, original size.
pub open spec fn builtin_config(t: ResourceTier, f: VideoFormat, dir: Seq<char>) -> RecordingConfigView {
    let d = default_recording(dir);
    match t {
        ResourceTier::Low => RecordingConfigView {
            video_format: f,
            audio_format: AudioFormat::Mp3,
            fps: 24,
            crf: 28,
            video_bitrate: 0,
            audio_bitrate: 96,
            use_dmabuf: false,
            preset: "ultrafast"@,
            quality: VideoQuality::P720,
            ..d
        },
        ResourceTier::Medium => RecordingConfigView {
            video_format: f,
            audio_format: AudioFormat::Aac,
            fps: 30,
            crf: 23,
            video_bitrate: 0,
            audio_bitrate: 128,
            use_dmabuf: true,
            preset: "superfast"@,
            quality: VideoQuality::P1080,
            ..d
        },
        ResourceTier::High => RecordingConfigView {
            video_format: f,
            audio_format: high_tier_audio(f),
            fps: 60,
            crf: 18,
            video_bitrate: 0,
            audio_bitrate: 192,
            use_dmabuf: true,
            preset: "veryfast"@,
            quality: VideoQuality::Original,
            ..d
        },
    }
}

/// The built-in preset for tier `t` and format `f`, named
/// `<tier label> · <format label>`.
pub open spec fn builtin_preset(t: ResourceTier, f: VideoFormat, dir: Seq<char>) -> PresetView {
    PresetView {
        id: builtin_id(t, f),
        name: t.label_text() + " · "@ + f.label_text(),
        tier: t,
        builtin: true,
        config: builtin_config(t, f, dir),
    }
}

/// The first space-separated word of a format label is ASCII and, once
/// lowercased, is the format's extension.
proof fn lemma_format_word(f: VideoFormat)
    ensures
        all_ascii(split_on(f.label_text(), ' ')[0]),
        ascii_lower(split_on(f.label_text(), ' ')[0]) == f.extension_text(),
{
    reveal_strlit("MP4 (H.264)");
    reveal_strlit("WebM (VP9)");
    reveal_strlit("MKV (H.264)");
    reveal_strlit("GIF (animated)");
    reveal_strlit("mp4");
    reveal_strlit("webm");
    reveal_strlit("mkv");
    reveal_strlit("gif");
    let s = f.label_text();
    let k: int = match f {
        VideoFormat::Mp4 => 3,
        VideoFormat::Webm => 4,
        VideoFormat::Mkv => 3,
        VideoFormat::Gif => 3,
    };
    lemma_find_from_skip(s, ' ', 0, k);
    assert(s[k] == ' ');
    assert(find(s, ' ') == Some(k));
    assert(split_on(s, ' ')[0] == s.take(k));
    assert(ascii_lower(s.take(k)) =~= f.extension_text());
}

/// The built-in preset for tier `tier` and format `fmt`.
pub fn builtin_for(tier: ResourceTier, fmt: VideoFormat, dir: &str) -> (p: Preset)
    ensures
        p@ == builtin_preset(tier, fmt, dir@),
{
    let (id, name, fps, crf, bitrate, audio_fmt, audio_br, dmabuf, preset, quality) = match tier {
        ResourceTier::Low => (
            "low",
            "Bajos recursos",
            24u32,
            28u32,
            0u32,
            AudioFormat::Mp3,
            96u32,
            false,
            "ultrafast",
            VideoQuality::P720,
        ),
        ResourceTier::Medium => (
            "medium",
            "Medios recursos",
            30,
            23,
            0,
            AudioFormat::Aac,
            128,
            true,
            "superfast",
            VideoQuality::P1080,
        ),
        ResourceTier::High => (
            "high",
            "Altos recursos",
            60,
            18,
            0,
            if fmt == VideoFormat::Mp4 || fmt == VideoFormat::Gif {
                AudioFormat::Aac
            } else {
                AudioFormat::Opus
            },
            192,
            true,
            "veryfast",
            VideoQuality::Original,
        ),
    };
    let label = chars_of(fmt.label());
    let words = split_chars(&label, ' ');
    proof {
        crate::text::lemma_split_len_pos(label@, ' ');
        lemma_format_word(fmt);
    }
    assert(words@.map_values(|w: Vec<char>| w@)[0] == words@[0]@);
    let first = string_of(&words[0]);
    let fmt_key = to_lowercase(first.as_str());
    let mut full_id = String::from_str(id);
    full_id.append("-");
    full_id.append(fmt_key.as_str());
    let mut full_name = String::from_str(name);
    full_name.append(" · ");
    full_name.append(fmt.label());
    let mut config = RecordingConfig::with_output_dir(String::from_str(dir));
    config.video_format = fmt;
    config.audio_format = audio_fmt;
    config.fps = fps;
    config.crf = crf;
    config.video_bitrate = bitrate;
    config.audio_bitrate = audio_br;
    config.use_dmabuf = dmabuf;
    config.preset = String::from_str(preset);
    config.quality = quality;
    let p = Preset { id: full_id, name: full_name, tier, builtin: true, config };
    assert(p.config@ == builtin_config(tier, fmt, dir@));
    p
}

/// The built-in list is valid when it holds one preset per tier and
/// format, tiers outermost, in the order of `ResourceTier::ALL` and
/// `VideoFormat::ALL`.
pub open spec fn is_builtin_list(s: Seq<PresetView>, dir: Seq<char>) -> bool {
    &&& s.len() == 12
    &&& forall|i: int| 0 <= i < 12 ==> #[trigger] s[i] == builtin_preset(tier_at(i / 4), format_at(i % 4), dir)
}

/// All built-in presets: every tier, and within it every format.
pub fn builtins(dir: &str) -> (r: Vec<Preset>)
    ensures
        is_builtin_list(preset_views(r@), dir@),
{
    let mut out: Vec<Preset> = Vec::new();
    let mut t: usize = 0;
    while t < 3
        invariant
            t <= 3,
            out@.len() == 4 * t,
            forall|i: int|
                0 <= i < out@.len() ==> #[trigger] out@[i]@ == builtin_preset(
                    tier_at(i / 4),
                    format_at(i % 4),
                    dir@,
                ),
        decreases 3 - t,
    {
        let tier = ResourceTier::at(t);
        let mut f: usize = 0;
        while f < 4
            invariant
                t < 3,
                f <= 4,
                tier.index_of() == t,
                out@.len() == 4 * t + f,
                forall|i: int|
                    0 <= i < out@.len() ==> #[trigger] out@[i]@ == builtin_preset(
                        tier_at(i / 4),
                        format_at(i % 4),
                        dir@,
                    ),
            decreases 4 - f,
        {
            let fmt = VideoFormat::at(f);
            let p = builtin_for(tier, fmt, dir);
            let ghost k = out@.len() as int;
            assert(k / 4 == t as int && k % 4 == f as int);
            assert(tier_at(t as int) == tier);
            assert(format_at(f as int) == fmt);
            out.push(p);
            f = f + 1;
        }
        t = t + 1;
    }
    assert(preset_views(out@).len() == 12);
    assert forall|i: int| 0 <= i < 12 implies #[trigger] preset_views(out@)[i] == builtin_preset(
        tier_at(i / 4),
        format_at(i % 4),
        dir@,
    ) by {
        assert(preset_views(out@)[i] == out@[i]@);
    }
    out
}

// ---------------------------------------------------------------------------
// Ordering user presets by name
// ---------------------------------------------------------------------------

/// Strict lexicographic order by code point (the order of `String`).
pub open spec fn chars_lt(a: Seq<char>, b: Seq<char>) -> bool
    decreases a.len(),
{
    if a.len() == 0 {
        b.len() > 0
    } else if b.len() == 0 {
        false
    } else if a[0] != b[0] {
        a[0] < b[0]
    } else {
        chars_lt(a.drop_first(), b.drop_first())
    }
}

pub proof fn lemma_chars_lt_trichotomy(a: Seq<char>, b: Seq<char>)
    ensures
        chars_lt(a, b) || a == b || chars_lt(b, a),
        !(chars_lt(a, b) && chars_lt(b, a)),
        !chars_lt(a, a),
    decreases a.len(),
{
    if a.len() == 0 {
        if b.len() == 0 {
            assert(a =~= b);
        }
    } else if b.len() == 0 {
        lemma_chars_lt_trichotomy(a.drop_first(), a.drop_first());
    } else if a[0] != b[0] {
        lemma_chars_lt_trichotomy(a.drop_first(), a.drop_first());
    } else {
        lemma_chars_lt_trichotomy(a.drop_first(), b.drop_first());
        if a.drop_first() == b.drop_first() {
            assert(a =~= seq![a[0]] + a.drop_first());
            assert(b =~= seq![b[0]] + b.drop_first());
        }
    }
}

pub proof fn lemma_chars_lt_transitive(a: Seq<char>, b: Seq<char>, c: Seq<char>)
    requires
        chars_lt(a, b),
        chars_lt(b, c),
    ensures
        chars_lt(a, c),
    decreases a.len(),
{
    if a.len() == 0 {
    } else if a[0] != b[0] || b[0] != c[0] {
    } else {
        lemma_chars_lt_transitive(a.drop_first(), b.drop_first(), c.drop_first());
    }
}

/// Whether `a` sorts strictly before `b`.
pub fn chars_less(a: &[char], b: &[char]) -> (r: bool)
    ensures
        r == chars_lt(a@, b@),
{
    let mut i: usize = 0;
    assert(a@.skip(0) =~= a@);
    assert(b@.skip(0) =~= b@);
    while i < a.len() && i < b.len() && a[i] == b[i]
        invariant
            i <= a@.len(),
            i <= b@.len(),
            chars_lt(a@, b@) == chars_lt(a@.skip(i as int), b@.skip(i as int)),
        decreases a.len() - i,
    {
        assert(a@.skip(i as int).drop_first() =~= a@.skip(i + 1));
        assert(b@.skip(i as int).drop_first() =~= b@.skip(i + 1));
        i = i + 1;
    }
    if i == a.len() {
        i < b.len()
    } else if i == b.len() {
        false
    } else {
        a[i] < b[i]
    }
}

/// Sort key of a preset: its lowercased name.
pub open spec fn name_key(p: PresetView) -> Seq<char> {
    unicode_lowercase(p.name)
}

pub open spec fn sorted_by_name(s: Seq<PresetView>) -> bool {
    forall|i: int, j: int|
        0 <= i < j < s.len() ==> !chars_lt(name_key(#[trigger] s[j]), name_key(#[trigger] s[i]))
}

/// `out` is `inp` reordered by `perm`, sorted by name key, with presets of
/// equal key kept in their input order.
pub open spec fn stable_sort_witness(
    inp: Seq<PresetView>,
    out: Seq<PresetView>,
    perm: Seq<int>,
) -> bool {
    &&& perm.len() == inp.len()
    &&& out.len() == inp.len()
    &&& forall|k: int|
        0 <= k < out.len() ==> 0 <= #[trigger] perm[k] < inp.len() && out[k] == inp[perm[k]]
    &&& forall|k1: int, k2: int|
        0 <= k1 < k2 < out.len() ==> #[trigger] perm[k1] != #[trigger] perm[k2]
    &&& sorted_by_name(out)
    &&& forall|k1: int, k2: int|
        0 <= k1 < k2 < out.len() && name_key(#[trigger] out[k1]) == name_key(#[trigger] out[k2])
            ==> perm[k1] < perm[k2]
}

/// `out` is the stable sort of `inp` by lowercased name.
pub open spec fn stable_sort_by_name(inp: Seq<PresetView>, out: Seq<PresetView>) -> bool {
    exists|perm: Seq<int>| stable_sort_witness(inp, out, perm)
}

/// Sort presets by lowercased name, keeping presets of equal name in
/// their original order.
pub fn sort_by_name(user: Vec<Preset>) -> (r: Vec<Preset>)
    ensures
        stable_sort_by_name(preset_views(user@), preset_views(r@)),
{
    let ghost orig = preset_views(user@);
    let n = user.len();
    let mut rest = user;
    let mut out: Vec<Preset> = Vec::new();
    let mut keys: Vec<Vec<char>> = Vec::new();
    let ghost mut perm: Seq<int> = seq![];
    let mut i: usize = 0;
    assert(preset_views(rest@) =~= orig.skip(0));
    while i < n
        invariant
            i <= n,
            n == orig.len(),
            preset_views(rest@) == orig.skip(i as int),
            rest@.len() == n - i,
            out@.len() == i,
            keys@.len() == i,
            perm.len() == i,
            forall|k: int| 0 <= k < i ==> #[trigger] keys@[k]@ == name_key(out@[k]@),
            forall|k: int|
                0 <= k < i ==> 0 <= #[trigger] perm[k] < i && out@[k]@ == orig[perm[k]],
            forall|k1: int, k2: int| 0 <= k1 < k2 < i ==> #[trigger] perm[k1] != #[trigger] perm[k2],
            sorted_by_name(preset_views(out@)),
            forall|k1: int, k2: int|
                0 <= k1 < k2 < i && name_key(#[trigger] out@[k1]@) == name_key(
                    #[trigger] out@[k2]@,
                ) ==> perm[k1] < perm[k2],
        decreases n - i,
    {
        let ghost before_rest = rest@;
        let p = rest.remove(0);
        assert(p@ == orig[i as int]) by {
            assert(preset_views(before_rest)[0] == p@);
        }
        assert(preset_views(rest@) =~= orig.skip(i + 1)) by {
            assert(preset_views(before_rest).skip(1) =~= preset_views(rest@));
        }
        let lowered = to_lowercase(p.name.as_str());
        let key = chars_of(lowered.as_str());
        let mut j: usize = 0;
        while j < out.len() && !chars_less(&key, &keys[j])
            invariant
                j <= out@.len(),
                keys@.len() == out@.len(),
                forall|m: int| 0 <= m < j ==> !chars_lt(key@, #[trigger] keys@[m]@),
            decreases out.len() - j,
        {
            j = j + 1;
        }
        proof {
            insert_keeps_sorted(preset_views(out@), keys@, key@, j as int, p@, out@);
        }
        let ghost old_out = out@;
        let ghost old_keys = keys@;
        let ghost old_perm = perm;
        out.insert(j, p);
        keys.insert(j, key);
        proof {
            perm = old_perm.insert(j as int, i as int);
            assert(preset_views(out@) =~= preset_views(old_out).insert(j as int, p@));
            assert forall|k: int| 0 <= k < i + 1 implies #[trigger] keys@[k]@ == name_key(
                out@[k]@,
            ) by {
                if k < j {
                    assert(keys@[k] == old_keys[k]);
                    assert(out@[k] == old_out[k]);
                } else if k == j {
                } else {
                    assert(keys@[k] == old_keys[k - 1]);
                    assert(out@[k] == old_out[k - 1]);
                }
            }
            assert forall|k: int| 0 <= k < i + 1 implies 0 <= #[trigger] perm[k] < i + 1
                && out@[k]@ == orig[perm[k]] by {
                if k < j {
                    assert(perm[k] == old_perm[k]);
                    assert(out@[k] == old_out[k]);
                } else if k == j {
                } else {
                    assert(perm[k] == old_perm[k - 1]);
                    assert(out@[k] == old_out[k - 1]);
                }
            }
            assert forall|k1: int, k2: int| 0 <= k1 < k2 < i + 1 implies #[trigger] perm[k1]
                != #[trigger] perm[k2] by {
                if k1 < j && k2 < j {
                } else if k1 < j && k2 == j {
                    assert(old_perm[k1] < i);
                } else if k1 < j {
                    assert(perm[k2] == old_perm[k2 - 1]);
                } else if k1 == j {
                    assert(perm[k2] == old_perm[k2 - 1]);
                    assert(old_perm[k2 - 1] < i);
                } else {
                    assert(perm[k1] == old_perm[k1 - 1]);
                    assert(perm[k2] == old_perm[k2 - 1]);
                }
            }
            assert forall|k1: int, k2: int|
                0 <= k1 < k2 < i + 1 && name_key(#[trigger] out@[k1]@) == name_key(
                    #[trigger] out@[k2]@,
                ) implies perm[k1] < perm[k2] by {
                if k1 < j && k2 < j {
                    assert(out@[k1] == old_out[k1]);
                    assert(out@[k2] == old_out[k2]);
                } else if k1 < j && k2 == j {
                    assert(old_perm[k1] < i);
                } else if k1 < j {
                    assert(out@[k1] == old_out[k1]);
                    assert(out@[k2] == old_out[k2 - 1]);
                    assert(perm[k2] == old_perm[k2 - 1]);
                } else if k1 == j {
                    // a later element has a strictly larger key
                    assert(out@[k2] == old_out[k2 - 1]);
                    assert(old_keys[k2 - 1]@ == name_key(old_out[k2 - 1]@));
                    assert(chars_lt(key@, name_key(preset_views(old_out)[k2 - 1])));
                    lemma_chars_lt_trichotomy(key@, key@);
                } else {
                    assert(out@[k1] == old_out[k1 - 1]);
                    assert(out@[k2] == old_out[k2 - 1]);
                    assert(perm[k1] == old_perm[k1 - 1]);
                    assert(perm[k2] == old_perm[k2 - 1]);
                }
            }
        }
        i = i + 1;
    }
    proof {
        assert(stable_sort_witness(orig, preset_views(out@), perm)) by {
            assert forall|k: int| 0 <= k < preset_views(out@).len() implies 0 <= #[trigger] perm[k]
                < orig.len() && preset_views(out@)[k] == orig[perm[k]] by {
                assert(preset_views(out@)[k] == out@[k]@);
            }
            assert forall|k1: int, k2: int|
                0 <= k1 < k2 < preset_views(out@).len() && name_key(
                    #[trigger] preset_views(out@)[k1],
                ) == name_key(#[trigger] preset_views(out@)[k2]) implies perm[k1] < perm[k2] by {
                assert(preset_views(out@)[k1] == out@[k1]@);
                assert(preset_views(out@)[k2] == out@[k2]@);
            }
        }
    }
    out
}

/// Inserting `x` (key `kx`) at the first position whose key is greater
/// keeps a sorted list sorted.
proof fn insert_keeps_sorted(
    s: Seq<PresetView>,
    keys: Seq<Vec<char>>,
    kx: Seq<char>,
    j: int,
    x: PresetView,
    out: Seq<Preset>,
)
    requires
        sorted_by_name(s),
        s == preset_views(out),
        keys.len() == s.len(),
        forall|k: int| 0 <= k < s.len() ==> #[trigger] keys[k]@ == name_key(out[k]@),
        0 <= j <= s.len(),
        forall|m: int| 0 <= m < j ==> !chars_lt(kx, #[trigger] keys[m]@),
        j < s.len() ==> chars_lt(kx, keys[j]@),
        kx == name_key(x),
    ensures
        sorted_by_name(s.insert(j, x)),
        forall|m: int| j <= m < s.len() ==> chars_lt(kx, name_key(#[trigger] s[m])),
{
    assert forall|m: int| j <= m < s.len() implies chars_lt(kx, name_key(#[trigger] s[m])) by {
        assert(keys[j]@ == name_key(s[j]));
        if m > j {
            assert(!chars_lt(name_key(s[m]), name_key(s[j])));
            lemma_chars_lt_trichotomy(name_key(s[j]), name_key(s[m]));
            if name_key(s[j]) != name_key(s[m]) {
                lemma_chars_lt_transitive(kx, name_key(s[j]), name_key(s[m]));
            }
        }
    }
    let t = s.insert(j, x);
    assert forall|a: int, b: int| 0 <= a < b < t.len() implies !chars_lt(
        name_key(#[trigger] t[b]),
        name_key(#[trigger] t[a]),
    ) by {
        if a < j && b < j {
            assert(t[a] == s[a] && t[b] == s[b]);
        } else if a < j && b == j {
            assert(keys[a]@ == name_key(s[a]));
        } else if a < j {
            assert(t[a] == s[a] && t[b] == s[b - 1]);
        } else if a == j {
            // every later key is at least keys[j], which is above kx
            assert(t[b] == s[b - 1]);
            assert(keys[j]@ == name_key(s[j]));
            assert(keys[b - 1]@ == name_key(s[b - 1]));
            if b - 1 > j {
                assert(!chars_lt(name_key(s[b - 1]), name_key(s[j])));
                lemma_chars_lt_trichotomy(name_key(s[j]), name_key(s[b - 1]));
                if name_key(s[j]) != name_key(s[b - 1]) {
                    lemma_chars_lt_transitive(kx, name_key(s[j]), name_key(s[b - 1]));
                }
            }
            lemma_chars_lt_trichotomy(kx, name_key(s[b - 1]));
        } else {
            assert(t[a] == s[a - 1] && t[b] == s[b - 1]);
        }
    }
}

/// Input position `x` goes before input position `y` in the stable name
/// order of `inp`: a smaller name key, or the same key and an earlier
/// position.
pub open spec fn listed_before(inp: Seq<PresetView>, x: int, y: int) -> bool {
    ||| chars_lt(name_key(inp[x]), name_key(inp[y]))
    ||| (name_key(inp[x]) == name_key(inp[y]) && x < y)
}

/// A stable sort visits the input positions in strictly increasing stable
/// name order.
proof fn lemma_witness_ordered(inp: Seq<PresetView>, out: Seq<PresetView>, perm: Seq<int>)
    requires
        stable_sort_witness(inp, out, perm),
    ensures
        forall|k1: int, k2: int|
            0 <= k1 < k2 < out.len() ==> listed_before(inp, #[trigger] perm[k1], #[trigger] perm[k2]),
{
    assert forall|k1: int, k2: int| 0 <= k1 < k2 < out.len() implies listed_before(
        inp,
        #[trigger] perm[k1],
        #[trigger] perm[k2],
    ) by {
        assert(out[k1] == inp[perm[k1]]);
        assert(out[k2] == inp[perm[k2]]);
        assert(!chars_lt(name_key(out[k2]), name_key(out[k1])));
        lemma_chars_lt_trichotomy(name_key(out[k1]), name_key(out[k2]));
    }
}

/// A stable sort visits every input position.
proof fn lemma_witness_onto(inp: Seq<PresetView>, out: Seq<PresetView>, perm: Seq<int>)
    requires
        stable_sort_witness(inp, out, perm),
    ensures
        forall|x: int| 0 <= x < inp.len() ==> #[trigger] perm.contains(x),
{
    let n = inp.len() as int;
    assert(perm.no_duplicates()) by {
        assert forall|i: int, j: int| 0 <= i < perm.len() && 0 <= j < perm.len() && i != j implies perm[i]
            != perm[j] by {
            if i < j {
                assert(perm[i] != perm[j]);
            } else {
                assert(perm[j] != perm[i]);
            }
        }
    }
    perm.unique_seq_to_set();
    let range = vstd::set_lib::set_int_range(0, n);
    vstd::set_lib::lemma_int_range(0, n);
    assert(perm.to_set().subset_of(range)) by {
        assert forall|x: int| perm.to_set().contains(x) implies range.contains(x) by {
            let k = choose|k: int| 0 <= k < perm.len() && perm[k] == x;
            assert(0 <= perm[k] < n);
        }
    }
    vstd::set_lib::lemma_len_subset(perm.to_set(), range);
    vstd::set_lib::lemma_subset_equality(perm.to_set(), range);
    assert forall|x: int| 0 <= x < n implies #[trigger] perm.contains(x) by {
        assert(range.contains(x));
        assert(perm.to_set().contains(x));
    }
}

/// Two stable sorts of one input visit the input positions in the same
/// order, up to position `k`.
proof fn lemma_witnesses_agree(
    inp: Seq<PresetView>,
    o1: Seq<PresetView>,
    p1: Seq<int>,
    o2: Seq<PresetView>,
    p2: Seq<int>,
    k: int,
)
    requires
        stable_sort_witness(inp, o1, p1),
        stable_sort_witness(inp, o2, p2),
        0 <= k <= inp.len(),
    ensures
        forall|j: int| 0 <= j < k ==> p1[j] == p2[j],
    decreases k,
{
    if k > 0 {
        lemma_witnesses_agree(inp, o1, p1, o2, p2, k - 1);
        let j = k - 1;
        let a = p1[j];
        let b = p2[j];
        if a != b {
            lemma_witness_ordered(inp, o1, p1);
            lemma_witness_ordered(inp, o2, p2);
            lemma_witness_onto(inp, o1, p1);
            lemma_witness_onto(inp, o2, p2);
            assert(0 <= a < inp.len() && 0 <= b < inp.len());
            lemma_chars_lt_trichotomy(name_key(inp[a]), name_key(inp[b]));
            if listed_before(inp, a, b) {
                // `a` comes before `b` in the second order too, so before
                // position `j`, where both orders agree: `a` would occur
                // twice in the first.
                assert(p2.contains(a));
                let m = choose|m: int| 0 <= m < p2.len() && #[trigger] p2[m] == a;
                if m > j {
                    assert(listed_before(inp, p2[j], p2[m]));
                } else {
                    assert(m < j);
                    assert(p1[m] == p2[m]);
                    assert(p1[m] != p1[j]);
                }
            } else {
                assert(listed_before(inp, b, a));
                assert(p1.contains(b));
                let m = choose|m: int| 0 <= m < p1.len() && #[trigger] p1[m] == b;
                if m > j {
                    assert(listed_before(inp, p1[j], p1[m]));
                } else {
                    assert(m < j);
                    assert(p1[m] == p2[m]);
                    assert(p2[m] != p2[j]);
                }
            }
        }
    }
}

/// The stable sort of a list by name is unique.
pub proof fn law_stable_sort_unique(inp: Seq<PresetView>, o1: Seq<PresetView>, o2: Seq<PresetView>)
    requires
        stable_sort_by_name(inp, o1),
        stable_sort_by_name(inp, o2),
    ensures
        o1 == o2,
{
    let p1 = choose|p: Seq<int>| stable_sort_witness(inp, o1, p);
    let p2 = choose|p: Seq<int>| stable_sort_witness(inp, o2, p);
    lemma_witnesses_agree(inp, o1, p1, o2, p2, inp.len() as int);
    assert forall|k: int| 0 <= k < o1.len() implies o1[k] == o2[k] by {
        assert(o1[k] == inp[p1[k]]);
        assert(o2[k] == inp[p2[k]]);
    }
    assert(o1 =~= o2);
}

/// The full preset list for a given set of user presets: the built-ins,
/// then the user presets stably sorted by lowercased name.
pub open spec fn is_preset_listing(user: Seq<PresetView>, all: Seq<PresetView>, dir: Seq<char>) -> bool {
    &&& all.len() == 12 + user.len()
    &&& is_builtin_list(all.take(12), dir)
    &&& stable_sort_by_name(user, all.skip(12))
}

/// Built-in presets (with output directory `dir`) first, then the given
/// user presets sorted by name.
pub fn all(user: Vec<Preset>, dir: &str) -> (r: Vec<Preset>)
    ensures
        is_preset_listing(preset_views(user@), preset_views(r@), dir@),
{
    let mut v = builtins(dir);
    let ghost b = v@;
    let sorted = sort_by_name(user);
    let ghost s = sorted@;
    let mut sorted = sorted;
    v.append(&mut sorted);
    assert(preset_views(v@).take(12) =~= preset_views(b));
    assert(preset_views(v@).skip(12) =~= preset_views(s));
    v
}

/// The presets of `s` whose tier is `t`, in order.
pub open spec fn of_tier(s: Seq<PresetView>, t: ResourceTier) -> Seq<PresetView>
    decreases s.len(),
{
    if s.len() == 0 {
        seq![]
    } else if s.last().tier == t {
        of_tier(s.drop_last(), t).push(s.last())
    } else {
        of_tier(s.drop_last(), t)
    }
}

/// Keep the presets of tier `t`, in order.
pub fn filter_tier(v: Vec<Preset>, t: ResourceTier) -> (r: Vec<Preset>)
    ensures
        preset_views(r@) == of_tier(preset_views(v@), t),
{
    let ghost orig = preset_views(v@);
    let n = v.len();
    let mut rest = v;
    let mut out: Vec<Preset> = Vec::new();
    let mut i: usize = 0;
    assert(preset_views(rest@) =~= orig.skip(0));
    while i < n
        invariant
            i <= n,
            n == orig.len(),
            rest@.len() == n - i,
            preset_views(rest@) == orig.skip(i as int),
            preset_views(out@) == of_tier(orig.take(i as int), t),
        decreases n - i,
    {
        let ghost before_rest = rest@;
        let p = rest.remove(0);
        assert(p@ == orig[i as int]) by {
            assert(preset_views(before_rest)[0] == p@);
        }
        assert(preset_views(rest@) =~= orig.skip(i + 1)) by {
            assert(preset_views(before_rest).skip(1) =~= preset_views(rest@));
        }
        assert(orig.take(i + 1).drop_last() =~= orig.take(i as int));
        let ghost before = out@;
        if p.tier == t {
            out.push(p);
            assert(preset_views(out@) =~= preset_views(before).push(p@));
        }
        i = i + 1;
    }
    assert(orig.take(n as int) =~= orig);
    out
}

/// The presets of tier `tier` among the built-ins (with output directory
/// `dir`) and the given user presets.
pub fn for_tier(tier: ResourceTier, user: Vec<Preset>, dir: &str) -> (r: Vec<Preset>)
    ensures
        exists|listing: Seq<PresetView>|
            is_preset_listing(preset_views(user@), listing, dir@) && preset_views(r@) == of_tier(
                listing,
                tier,
            ),
        forall|listing: Seq<PresetView>|
            is_preset_listing(preset_views(user@), listing, dir@) ==> preset_views(r@) == of_tier(
                listing,
                tier,
            ),
{
    let ghost u = preset_views(user@);
    let a = all(user, dir);
    let r = filter_tier(a, tier);
    proof {
        assert forall|listing: Seq<PresetView>| is_preset_listing(u, listing, dir@) implies preset_views(
            r@,
        ) == of_tier(listing, tier) by {
            law_preset_listing_unique(u, preset_views(a@), listing, dir@);
        }
    }
    r
}

// ---------------------------------------------------------------------------
// Laws
// ---------------------------------------------------------------------------

/// A set of user presets has exactly one preset listing: the built-ins in
/// their fixed order, then the user presets in stable name order.
pub proof fn law_preset_listing_unique(
    user: Seq<PresetView>,
    a1: Seq<PresetView>,
    a2: Seq<PresetView>,
    dir: Seq<char>,
)
    requires
        is_preset_listing(user, a1, dir),
        is_preset_listing(user, a2, dir),
    ensures
        a1 == a2,
{
    law_stable_sort_unique(user, a1.skip(12), a2.skip(12));
    assert forall|i: int| 0 <= i < a1.len() implies a1[i] == a2[i] by {
        if i < 12 {
            assert(a1.take(12)[i] == builtin_preset(tier_at(i / 4), format_at(i % 4), dir));
            assert(a2.take(12)[i] == builtin_preset(tier_at(i / 4), format_at(i % 4), dir));
        } else {
            assert(a1.skip(12)[i - 12] == a2.skip(12)[i - 12]);
        }
    }
    assert(a1 =~= a2);
}

/// Filtering by tier distributes over concatenation.
proof fn lemma_of_tier_append(a: Seq<PresetView>, b: Seq<PresetView>, t: ResourceTier)
    ensures
        of_tier(a + b, t) == of_tier(a, t) + of_tier(b, t),
    decreases b.len(),
{
    if b.len() == 0 {
        assert(a + b =~= a);
        assert(of_tier(a, t) + of_tier(b, t) =~= of_tier(a, t));
    } else {
        lemma_of_tier_append(a, b.drop_last(), t);
        assert((a + b).drop_last() =~= a + b.drop_last());
        assert((a + b).last() == b.last());
        if b.last().tier == t {
            assert(of_tier(a, t) + of_tier(b.drop_last(), t).push(b.last()) =~= (of_tier(a, t)
                + of_tier(b.drop_last(), t)).push(b.last()));
        }
    }
}

/// Filtering a list whose presets all have tier `t` (or none has it).
proof fn lemma_of_tier_uniform(s: Seq<PresetView>, t: ResourceTier)
    ensures
        (forall|i: int| 0 <= i < s.len() ==> (#[trigger] s[i]).tier == t) ==> of_tier(s, t) == s,
        (forall|i: int| 0 <= i < s.len() ==> (#[trigger] s[i]).tier != t) ==> of_tier(s, t) == Seq::<
            PresetView,
        >::empty(),
    decreases s.len(),
{
    if s.len() > 0 {
        lemma_of_tier_uniform(s.drop_last(), t);
        assert(s.drop_last().push(s.last()) =~= s);
        if forall|i: int| 0 <= i < s.len() ==> (#[trigger] s[i]).tier == t {
            assert forall|i: int| 0 <= i < s.drop_last().len() implies (#[trigger] s.drop_last()[i]).tier
                == t by {
                assert(s.drop_last()[i] == s[i]);
            }
        }
        if forall|i: int| 0 <= i < s.len() ==> (#[trigger] s[i]).tier != t {
            assert forall|i: int| 0 <= i < s.drop_last().len() implies (#[trigger] s.drop_last()[i]).tier
                != t by {
                assert(s.drop_last()[i] == s[i]);
            }
            assert(s[s.len() - 1].tier != t);
        }
    }
}

/// Filtering the built-in list by a tier leaves that tier's four presets,
/// in format order.
proof fn lemma_builtins_of_tier(s: Seq<PresetView>, dir: Seq<char>, t: ResourceTier)
    requires
        is_builtin_list(s, dir),
    ensures
        of_tier(s, t).len() == 4,
        forall|i: int| 0 <= i < 4 ==> #[trigger] of_tier(s, t)[i] == builtin_preset(t, format_at(i), dir),
{
    let b0 = s.subrange(0, 4);
    let b1 = s.subrange(4, 8);
    let b2 = s.subrange(8, 12);
    assert(s =~= b0 + b1 + b2);
    lemma_of_tier_append(b0 + b1, b2, t);
    lemma_of_tier_append(b0, b1, t);
    assert forall|i: int| 0 <= i < 4 implies #[trigger] b0[i] == builtin_preset(ResourceTier::Low, format_at(i), dir) by {
        assert(s[i] == builtin_preset(tier_at(i / 4), format_at(i % 4), dir));
    }
    assert forall|i: int| 0 <= i < 4 implies #[trigger] b1[i] == builtin_preset(ResourceTier::Medium, format_at(i), dir) by {
        assert(s[i + 4] == builtin_preset(tier_at((i + 4) / 4), format_at((i + 4) % 4), dir));
    }
    assert forall|i: int| 0 <= i < 4 implies #[trigger] b2[i] == builtin_preset(ResourceTier::High, format_at(i), dir) by {
        assert(s[i + 8] == builtin_preset(tier_at((i + 8) / 4), format_at((i + 8) % 4), dir));
    }
    lemma_of_tier_uniform(b0, t);
    lemma_of_tier_uniform(b1, t);
    lemma_of_tier_uniform(b2, t);
    let e = Seq::<PresetView>::empty();
    if t == ResourceTier::Low {
        assert(of_tier(s, t) =~= b0 + e + e);
    } else if t == ResourceTier::Medium {
        assert(of_tier(s, t) =~= e + b1 + e);
    } else {
        assert(of_tier(s, t) =~= e + e + b2);
    }
}

/// The presets of a tier are the full listing (`all`) filtered by that
/// tier, in the listing's order: whatever `for_tier` returns for some
/// listing of the user presets, it returns for the one `all` gives. They
/// all have that tier and start with the tier's four built-ins, one per
/// format in `VideoFormat::ALL` order.
pub proof fn law_for_tier_is_filtered_listing(
    user: Seq<PresetView>,
    listing: Seq<PresetView>,
    dir: Seq<char>,
    tier: ResourceTier,
    r: Seq<PresetView>,
)
    requires
        is_preset_listing(user, listing, dir),
        exists|l: Seq<PresetView>| is_preset_listing(user, l, dir) && r == of_tier(l, tier),
    ensures
        r == of_tier(listing, tier),
        forall|i: int| 0 <= i < r.len() ==> (#[trigger] r[i]).tier == tier,
        r.len() >= 4,
        forall|i: int| 0 <= i < 4 ==> #[trigger] r[i] == builtin_preset(tier, format_at(i), dir),
{
    let l = choose|l: Seq<PresetView>| is_preset_listing(user, l, dir) && r == of_tier(l, tier);
    law_preset_listing_unique(user, l, listing, dir);
    law_of_tier_only_tier(listing, tier);
    assert(listing =~= listing.take(12) + listing.skip(12));
    lemma_of_tier_append(listing.take(12), listing.skip(12), tier);
    lemma_builtins_of_tier(listing.take(12), dir, tier);
    assert forall|i: int| 0 <= i < 4 implies #[trigger] r[i] == builtin_preset(tier, format_at(i), dir) by {
        assert(r[i] == of_tier(listing.take(12), tier)[i]);
    }
}

/// Built-in presets of different tier or format have different ids.
pub proof fn law_builtin_ids_distinct(t1: ResourceTier, f1: VideoFormat, t2: ResourceTier, f2: VideoFormat)
    requires
        t1 != t2 || f1 != f2,
    ensures
        builtin_id(t1, f1) != builtin_id(t2, f2),
{
    reveal_strlit("low");
    reveal_strlit("medium");
    reveal_strlit("high");
    reveal_strlit("-");
    reveal_strlit("mp4");
    reveal_strlit("webm");
    reveal_strlit("mkv");
    reveal_strlit("gif");
    let a = builtin_id(t1, f1);
    let b = builtin_id(t2, f2);
    if t1 != t2 {
        assert(a[0] != b[0]);
    } else {
        let k = tier_key(t1).len() as int;
        if f1.extension_text()[0] != f2.extension_text()[0] {
            assert(a[k + 1] != b[k + 1]);
        } else {
            assert(a[k + 2] != b[k + 2]);
        }
    }
}

/// The built-in list has one preset per tier and format, so its ids are
/// pairwise distinct.
pub proof fn law_builtin_list_ids_unique(s: Seq<PresetView>, dir: Seq<char>)
    requires
        is_builtin_list(s, dir),
    ensures
        forall|i: int, j: int| 0 <= i < j < s.len() ==> (#[trigger] s[i]).id != (#[trigger] s[j]).id,
{
    assert forall|i: int, j: int| 0 <= i < j < s.len() implies (#[trigger] s[i]).id != (
    #[trigger] s[j]).id by {
        assert(s[i] == builtin_preset(tier_at(i / 4), format_at(i % 4), dir));
        assert(s[j] == builtin_preset(tier_at(j / 4), format_at(j % 4), dir));
        assert(tier_at(i / 4) != tier_at(j / 4) || format_at(i % 4) != format_at(j % 4));
        law_builtin_ids_distinct(tier_at(i / 4), format_at(i % 4), tier_at(j / 4), format_at(j % 4));
    }
}

/// Listing the presets of a tier gives presets of that tier only.
pub proof fn law_of_tier_only_tier(s: Seq<PresetView>, t: ResourceTier)
    ensures
        forall|i: int| 0 <= i < of_tier(s, t).len() ==> (#[trigger] of_tier(s, t)[i]).tier == t,
    decreases s.len(),
{
    if s.len() > 0 {
        law_of_tier_only_tier(s.drop_last(), t);
    }
}

/// The built-in list holds a preset for every tier and format: the one
/// for tier `t` and format `f` is at position `4 * t + f`.
pub proof fn law_builtins_cover_every_combination(
    s: Seq<PresetView>,
    dir: Seq<char>,
    t: ResourceTier,
    f: VideoFormat,
)
    requires
        is_builtin_list(s, dir),
    ensures
        ({
            let i = 4 * t.index_of() + f.index_of();
            &&& 0 <= i < s.len()
            &&& s[i].tier == t
            &&& s[i].config.video_format == f
            &&& s[i].id == builtin_id(t, f)
        }),
{
    let i = 4 * t.index_of() + f.index_of();
    assert(i / 4 == t.index_of() && i % 4 == f.index_of());
    assert(s[i] == builtin_preset(tier_at(i / 4), format_at(i % 4), dir));
}

} // verus!
