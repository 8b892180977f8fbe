use wf_recorder_gui::audio::{parse_wpctl_line, AudioBackend};
use wf_recorder_gui::config::{default_filename_at, ensure_extension, AudioFormat, RecordingConfig, ResourceTier, VideoFormat};
use wf_recorder_gui::portals::default_shortcuts;
use wf_recorder_gui::presets::{builtin_for, builtins};
use wf_recorder_gui::recorder::{codec_for_format, RecorderStatus};
use wf_recorder_gui::wayland::{classify_session, SessionKind};

#[test]
fn parse_wpctl_line_handles_asterisk() {
    let s = parse_wpctl_line("* 42. Realtek ALC295 Analog [alsa_input.pci-0000_00_1b.0.analog-stereo]");
    assert!(s.is_some());
    let s = s.unwrap();
    assert_eq!(s.name, "alsa_input.pci-0000_00_1b.0.analog-stereo");
    assert_eq!(s.description, "Realtek ALC295 Analog");
}

#[test]
fn parse_wpctl_line_rejects_garbage() {
    assert!(parse_wpctl_line("not a source line").is_none());
    assert!(parse_wpctl_line("").is_none());
}

#[test]
fn backend_arg_matches_wf_recorder() {
    assert_eq!(AudioBackend::Pipewire.wf_recorder_arg(), Some("pipewire"));
    assert_eq!(AudioBackend::Pulseaudio.wf_recorder_arg(), Some("pulse"));
    assert_eq!(AudioBackend::NoBackend.wf_recorder_arg(), None);
}

#[test]
fn ensure_extension_appends_when_missing() {
    assert_eq!(ensure_extension("clip", VideoFormat::Mp4), "clip.mp4");
    assert_eq!(ensure_extension("clip.mp4", VideoFormat::Mp4), "clip.mp4");
    assert_eq!(ensure_extension("clip.MP4", VideoFormat::Mp4), "clip.MP4");
}

#[test]
fn default_shortcuts_have_unique_ids() {
    let s = default_shortcuts();
    let mut ids: Vec<_> = s.iter().map(|x| x.id.clone()).collect();
    ids.sort();
    let len = ids.len();
    ids.dedup();
    assert_eq!(len, ids.len());
}

#[test]
fn builtins_have_unique_ids() {
    let bs = builtins("/tmp");
    let mut ids: Vec<_> = bs.iter().map(|p| p.id.clone()).collect();
    ids.sort();
    let len_before = ids.len();
    ids.dedup();
    assert_eq!(len_before, ids.len(), "duplicate preset ids");
}

#[test]
fn builtins_cover_all_combinations() {
    let bs = builtins("/tmp");
    assert_eq!(bs.len(), ResourceTier::ALL.len() * VideoFormat::ALL.len());
}

#[test]
fn low_tier_uses_no_dmabuf() {
    let p = builtin_for(ResourceTier::Low, VideoFormat::Mp4, "/tmp");
    assert!(!p.config.use_dmabuf);
    assert!(p.config.fps <= 30);
}

#[test]
fn high_tier_uses_opus() {
    let p = builtin_for(ResourceTier::High, VideoFormat::Mkv, "/tmp");
    assert_eq!(p.config.audio_format, AudioFormat::Opus);
    assert_eq!(p.config.fps, 60);
}

#[test]
fn codec_for_mp4_uses_h264_yuv420p() {
    let (c, p) = codec_for_format(VideoFormat::Mp4);
    assert_eq!(c, "libx264");
    assert_eq!(p, "yuv420p");
}

#[test]
fn codec_for_webm_uses_vp9() {
    let (c, _) = codec_for_format(VideoFormat::Webm);
    assert_eq!(c, "libvpx-vp9");
}

#[test]
fn status_label_changes_with_state() {
    let idle = RecorderStatus::Idle;
    assert_eq!(idle.label(), "Inactivo");
    let failed = RecorderStatus::Failed { message: "boom".into() };
    assert!(failed.label().contains("boom"));
}

#[test]
fn warning_is_some_for_x11() {
    assert!(SessionKind::X11.warning().is_some());
    assert!(SessionKind::Wlroots.warning().is_none());
}

#[test]
fn default_filename_has_extension() {
    let cfg = RecordingConfig::with_output_dir("/tmp".to_string());
    let name = default_filename_at(&cfg, "2024-07-12_18-30-45");
    assert!(name.ends_with(".mp4"));
    assert!(name.starts_with("Recording_"));
}

#[test]
fn detect_returns_a_variant() {
    // Whatever the environment says, classification gives one of the kinds.
    for bits in 0..32u8 {
        let kind = classify_session(
            bits & 1 != 0,
            bits & 2 != 0,
            if bits & 4 != 0 { "wayland" } else { "x11" },
            if bits & 8 != 0 { "sway" } else { "GNOME" },
            bits & 16 != 0,
        );
        assert!(matches!(
            kind,
            SessionKind::Wlroots | SessionKind::WaylandOther | SessionKind::X11 | SessionKind::NoSession
        ));
    }
}
