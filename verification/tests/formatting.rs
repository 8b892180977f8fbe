use wf_recorder_gui::cli::{invoked_as_tui, log_filter, Cli, Cmd};
use wf_recorder_gui::config::{ensure_extension, Keybinds, RecordingConfig, VideoFormat, VideoQuality, AudioFormat};
use wf_recorder_gui::config::{default_filename_at, pick_output_dir};
use wf_recorder_gui::errors::AppError;
use wf_recorder_gui::shared::sanitize_filename;
use wf_recorder_gui::text::join_path;
use wf_recorder_gui::ui::{accel_matches, capture_step, CaptureStep, countdown_color, format_accel, format_elapsed, is_bare_modifier, slugify};

#[test]
fn elapsed_time_is_zero_padded() {
    assert_eq!(format_elapsed(0), "00:00:00");
    assert_eq!(format_elapsed(3725), "01:02:05");
    assert_eq!(format_elapsed(359_999), "99:59:59");
    assert_eq!(format_elapsed(360_000), "100:00:00");
}

#[test]
fn countdown_colour_by_seconds_left() {
    assert_eq!(countdown_color(0), "#e01b24");
    assert_eq!(countdown_color(1), "#e01b24");
    assert_eq!(countdown_color(2), "#f5c211");
    assert_eq!(countdown_color(3), "#3584e4");
    assert_eq!(countdown_color(10), "#3584e4");
}

#[test]
fn captured_accelerator_is_formatted() {
    assert_eq!(format_accel(true, true, false, false, "R"), "<Control><Alt>r");
    assert_eq!(format_accel(false, false, true, true, "F5"), "<Shift><Super>F5");
    assert_eq!(format_accel(false, false, false, false, "Ñ"), "Ñ");
}

#[test]
fn bare_modifiers_are_recognised() {
    assert!(is_bare_modifier("Shift_L"));
    assert!(is_bare_modifier("Super_R"));
    assert!(!is_bare_modifier("a"));
    assert!(!is_bare_modifier("shift_l"));
}

#[test]
fn accelerators_are_parsed_case_insensitively() {
    assert_eq!(
        Keybinds::parse_accel("<Control><Shift>F5"),
        Some((true, false, true, "f5".to_string()))
    );
    assert_eq!(
        Keybinds::parse_accel("<Ctrl><Mod1> X "),
        Some((true, true, false, "x".to_string()))
    );
    assert_eq!(Keybinds::parse_accel("<Control>"), None);
    assert_eq!(Keybinds::parse_accel(""), None);
    assert_eq!(
        Keybinds::parse_accel_lowercase("<alt>space"),
        Some((false, true, false, "space".to_string()))
    );
}

#[test]
fn default_keybinds_parse() {
    let k = Keybinds::defaults();
    assert_eq!(k.start, "<Control><Alt>r");
    assert_eq!(Keybinds::parse_accel(&k.stop), Some((true, true, false, "s".to_string())));
}

#[test]
fn key_presses_match_accelerators() {
    assert!(accel_matches("<Control><Alt>r", true, true, false, "R"));
    assert!(accel_matches("<Control><Alt>r", true, true, false, "r"));
    assert!(!accel_matches("<Control><Alt>r", true, true, true, "r"));
    assert!(!accel_matches("<Control><Alt>r", true, false, false, "r"));
    assert!(!accel_matches("<Control>", true, false, false, "r"));
}

#[test]
fn preset_names_are_slugified() {
    assert_eq!(slugify("Mi Preset  Genial!"), "mi-preset--genial");
    assert_eq!(slugify("--Hola--"), "hola");
    assert_eq!(slugify("Ñandú 4K"), "ñandú-4k");
    assert_eq!(slugify("!!!"), "");
}

#[test]
fn file_names_are_sanitized() {
    assert_eq!(sanitize_filename("../etc/passwd"), "_etc_passwd");
    assert_eq!(sanitize_filename("a\\b\0c"), "a_b_c");
    assert_eq!(sanitize_filename("..."), "");
    assert_eq!(sanitize_filename("clip"), "clip");
}

#[test]
fn sanitized_names_are_safe() {
    for name in ["../../x", ".hidden", "a/b", "/..", "\\\\server"] {
        let s = sanitize_filename(name);
        assert!(!s.contains('/') && !s.contains('\\') && !s.contains('\0'));
        assert!(!s.starts_with('.'));
    }
}

#[test]
fn extension_check_ignores_case() {
    assert_eq!(ensure_extension("CLIP.WEBM", VideoFormat::Webm), "CLIP.WEBM");
    assert_eq!(ensure_extension("clip.gif", VideoFormat::Mp4), "clip.gif.mp4");
    assert_eq!(ensure_extension("", VideoFormat::Mkv), ".mkv");
}

#[test]
fn ensure_extension_is_idempotent() {
    for name in ["clip", "clip.MKV", "a.mkv.mkv", ""] {
        let once = ensure_extension(name, VideoFormat::Mkv);
        assert_eq!(ensure_extension(&once, VideoFormat::Mkv), once);
        assert!(once.to_ascii_lowercase().ends_with(".mkv"));
    }
}

#[test]
fn file_name_uses_custom_name_or_stamp() {
    let mut cfg = RecordingConfig::with_output_dir("/tmp/v".to_string());
    assert_eq!(default_filename_at(&cfg, "2024-01-02_03-04-05"), "Recording_2024-01-02_03-04-05.mp4");
    cfg.custom_filename = "my/clip".to_string();
    assert_eq!(default_filename_at(&cfg, "x"), "my_clip.mp4");
    cfg.custom_filename = "demo.WEBM".to_string();
    cfg.video_format = VideoFormat::Webm;
    assert_eq!(default_filename_at(&cfg, "x"), "demo.WEBM");
    cfg.custom_filename = "   ".to_string();
    assert_eq!(default_filename_at(&cfg, "s"), "Recording_s.webm");
    cfg.custom_filename = "...".to_string();
    assert_eq!(default_filename_at(&cfg, "s"), "Recording_s.webm");
}

#[test]
fn default_config_values() {
    let cfg = RecordingConfig::with_output_dir("/videos".to_string());
    assert_eq!(cfg.output_dir, "/videos");
    assert_eq!(cfg.fps, 30);
    assert_eq!(cfg.crf, 20);
    assert_eq!(cfg.audio_bitrate, 128);
    assert_eq!(cfg.video_format, VideoFormat::Mp4);
    assert_eq!(cfg.audio_format, AudioFormat::Aac);
    assert_eq!(cfg.preset, "superfast");
    assert_eq!(cfg.quality, VideoQuality::Original);
    assert!(cfg.use_dmabuf && cfg.record_cursor);
    let copy = cfg.copied();
    assert_eq!(copy.output_dir, cfg.output_dir);
}

#[test]
fn quality_sizes() {
    assert_eq!(VideoQuality::Original.dimensions(1, 1), None);
    assert_eq!(VideoQuality::P720.dimensions(0, 0), Some((1280, 720)));
    assert_eq!(VideoQuality::P144.dimensions(0, 0), Some((256, 144)));
    assert_eq!(VideoQuality::Manual.dimensions(800, 600), Some((800, 600)));
    assert_eq!(VideoQuality::Manual.dimensions(800, 0), None);
}

#[test]
fn enum_positions_round_trip() {
    for (i, f) in VideoFormat::ALL.iter().enumerate() {
        assert_eq!(f.position(), i);
        assert_eq!(VideoFormat::at(i), *f);
    }
    for (i, f) in AudioFormat::ALL.iter().enumerate() {
        assert_eq!(f.position(), i);
        assert_eq!(AudioFormat::at(i), *f);
    }
    for (i, q) in VideoQuality::ALL.iter().enumerate() {
        assert_eq!(q.position(), i);
        assert_eq!(VideoQuality::at(i), *q);
    }
}

#[test]
fn audio_codecs_and_labels() {
    assert_eq!(AudioFormat::Opus.ffmpeg_codec(), Some("libopus"));
    assert_eq!(AudioFormat::Mp3.ffmpeg_codec(), Some("libmp3lame"));
    assert_eq!(AudioFormat::NoAudio.ffmpeg_codec(), None);
    assert_eq!(VideoFormat::Gif.extension(), "gif");
    assert_eq!(VideoFormat::Webm.label(), "WebM (VP9)");
}

#[test]
fn paths_join_like_pathbuf() {
    assert_eq!(join_path("/a", "b"), "/a/b");
    assert_eq!(join_path("/a/", "b"), "/a/b");
    assert_eq!(join_path("/a", "/abs"), "/abs");
    assert_eq!(join_path("", "b"), "b");
}

#[test]
fn error_messages() {
    assert!(AppError::WfRecorderNotFound.message().starts_with("No se encontró el ejecutable 'wf-recorder'"));
    assert!(AppError::WlrRandrNotFound.message().contains("'wlr-randr'"));
    assert!(AppError::SlurpNotFound.message().contains("'slurp'"));
    assert!(AppError::FfmpegNotFound.message().contains("'ffmpeg'"));
    assert_eq!(
        AppError::RecorderExit(-1, "boom".to_string()).message(),
        "wf-recorder terminó con código -1: boom"
    );
    assert_eq!(AppError::RecorderExit(2, String::new()).message(), "wf-recorder terminó con código 2: ");
    assert_eq!(AppError::Io("disk full".to_string()).message(), "Error de E/S: disk full");
    assert_eq!(
        AppError::ConfigParse("bad".to_string()).message(),
        "Error al parsear la configuración: bad"
    );
}

#[test]
fn command_line_choices() {
    assert!(invoked_as_tui("/usr/bin/wf-recorder-tui"));
    assert!(invoked_as_tui("wf-recorder-tui"));
    assert!(!invoked_as_tui("/usr/bin/wf-recorder-gui"));
    assert!(!invoked_as_tui("wf-recorder-tui/"));
    assert_eq!(log_filter(0), "warn");
    assert_eq!(log_filter(1), "info");
    assert_eq!(log_filter(2), "debug");
    assert_eq!(log_filter(7), "trace");
    assert_eq!(Cli { verbose: 0, command: None }.effective_cmd(), Cmd::Gui);
    assert_eq!(Cli { verbose: 1, command: Some(Cmd::Info) }.effective_cmd(), Cmd::Info);
}

#[test]
fn captured_accelerator_matches_its_key_press() {
    for key in ["r", "R", "F5", "space", "KP_Add", "1"] {
        for bits in 0..16u8 {
            let (ctrl, alt, shift, sup) = (bits & 1 != 0, bits & 2 != 0, bits & 4 != 0, bits & 8 != 0);
            let accel = format_accel(ctrl, alt, shift, sup, key);
            assert!(accel_matches(&accel, ctrl, alt, shift, key), "{accel} vs {key}");
            assert!(!accel_matches(&accel, !ctrl, alt, shift, key));
            assert!(!accel_matches(&accel, ctrl, alt, !shift, key));
        }
    }
}

#[test]
fn output_directory_preference() {
    assert_eq!(pick_output_dir(Some("/v".to_string()), Some("/d".to_string())), "/v");
    assert_eq!(pick_output_dir(None, Some("/d".to_string())), "/d");
    assert_eq!(pick_output_dir(None, None), "/tmp");
}

#[test]
fn shortcut_capture_steps() {
    assert_eq!(capture_step(true, false, false, false, "Escape"), CaptureStep::Keep);
    assert_eq!(capture_step(false, false, false, false, "Return"), CaptureStep::Keep);
    assert_eq!(capture_step(false, false, false, false, "KP_Enter"), CaptureStep::Keep);
    assert_eq!(capture_step(true, false, false, false, "Control_L"), CaptureStep::Wait);
    assert_eq!(
        capture_step(true, true, false, false, "R"),
        CaptureStep::Assign("<Control><Alt>r".to_string())
    );
}

#[test]
fn signed_numbers_in_messages() {
    assert_eq!(
        AppError::RecorderExit(i32::MIN, "x".to_string()).message(),
        "wf-recorder terminó con código -2147483648: x"
    );
}
