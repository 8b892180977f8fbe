use std::time::Instant;

use wf_recorder_gui::audio::{AudioBackend, choose_backend, cmdline_names_process, is_pid_entry, list_sources, parse_pactl_short, parse_wpctl_line, parse_wpctl_status};
use wf_recorder_gui::config::{AudioFormat, RecordingConfig, VideoFormat, VideoQuality};
use wf_recorder_gui::errors::AppError;
use wf_recorder_gui::recorder::{
    build_args, faststart_args, gif_args, libc_signal_int, needs_faststart, palette_args, pause_toggle_signal, post_process,
    gif_path, scale_args, scratch_name, RecorderController, RecorderState, RecorderStatus, WorkerMsg, STDERR_KEEP,
};

fn strings(v: &[&str]) -> Vec<String> {
    v.iter().map(|s| s.to_string()).collect()
}

#[test]
fn command_line_for_default_config() {
    let cfg = RecordingConfig::with_output_dir("/tmp/v".to_string());
    let (path, args) =
        RecorderController::command_line_at(&cfg, AudioBackend::Pipewire, "2024-01-02_03-04-05").unwrap();
    assert_eq!(path, "/tmp/v/Recording_2024-01-02_03-04-05.mp4");
    assert!(path.ends_with(".mp4"));
    assert_eq!(
        args,
        strings(&[
            "-y", "-f", "/tmp/v/Recording_2024-01-02_03-04-05.mp4", "-c", "libx264", "-x", "yuv420p", "-p",
            "crf=20", "-p", "preset=superfast", "-p", "tune=zerolatency", "-p", "bf=0", "-p", "g=60", "-r", "30",
        ])
    );
}

#[test]
fn command_line_rejects_relative_directory() {
    let cfg = RecordingConfig::with_output_dir("videos".to_string());
    match RecorderController::command_line_at(&cfg, AudioBackend::NoBackend, "s") {
        Err(AppError::ConfigParse(m)) => assert_eq!(m, "output_dir must be absolute, got videos"),
        other => panic!("unexpected {:?}", other),
    }
    let cfg = RecordingConfig::with_output_dir(String::new());
    assert!(RecorderController::command_line_at(&cfg, AudioBackend::NoBackend, "s").is_err());
}

#[test]
fn command_line_with_stamp_has_extension() {
    let mut cfg = RecordingConfig::with_output_dir("/tmp".to_string());
    cfg.video_format = VideoFormat::Mkv;
    let (path, args) = RecorderController::command_line_at(&cfg, AudioBackend::NoBackend, "2024-07-12_18-30-45").unwrap();
    assert_eq!(path, "/tmp/Recording_2024-07-12_18-30-45.mkv");
    assert_eq!(args[2], path);
}

#[test]
fn gif_is_captured_to_an_intermediate_mp4() {
    let mut cfg = RecordingConfig::with_output_dir("/tmp".to_string());
    cfg.video_format = VideoFormat::Gif;
    let (path, args) = RecorderController::command_line_at(&cfg, AudioBackend::NoBackend, "s").unwrap();
    assert_eq!(path, "/tmp/Recording_s.mp4");
    assert_eq!(args[2], path);
    assert_eq!(gif_path(&path), "/tmp/Recording_s.gif");
    assert_eq!(gif_path("/v/clip.mp4"), "/v/clip.gif");
    assert_eq!(gif_path("/tmp/a.mkv"), "/tmp/a.gif");
    assert_eq!(gif_path("/tmp/noext"), "/tmp/noext.gif");
    assert_eq!(gif_path("/tmp/.hidden"), "/tmp/.hidden.gif");
    assert_eq!(gif_path("/a.b/clip"), "/a.b/clip.gif");
    cfg.custom_filename = "demo".to_string();
    let (path, _) = RecorderController::command_line_at(&cfg, AudioBackend::NoBackend, "s").unwrap();
    assert_eq!(path, "/tmp/demo.mp4");
    assert_eq!(gif_path(&path), "/tmp/demo.gif");
}

#[test]
fn every_option_reaches_the_arguments() {
    let mut cfg = RecordingConfig::with_output_dir("/o".to_string());
    cfg.video_format = VideoFormat::Webm;
    cfg.fps = 60;
    cfg.crf = 18;
    cfg.preset = "veryfast".to_string();
    cfg.video_bitrate = 2500;
    cfg.use_dmabuf = false;
    cfg.output = "DP-1".to_string();
    cfg.geometry = "0,0 100x100".to_string();
    cfg.audio_source = "alsa.in".to_string();
    cfg.audio_source_desc = "Mic".to_string();
    cfg.audio_format = AudioFormat::Opus;
    cfg.audio_bitrate = 192;
    cfg.record_cursor = false;
    let args = build_args(&cfg, "/o/x.webm", AudioBackend::Pipewire);
    assert_eq!(
        args,
        strings(&[
            "-y", "-f", "/o/x.webm", "-c", "libvpx-vp9", "-x", "yuv420p", "-p", "crf=18", "-p",
            "preset=veryfast", "-p", "tune=zerolatency", "-p", "bf=0", "-p", "g=120", "-p", "bitrate=2500k",
            "-r", "60", "--no-dmabuf", "-o", "DP-1", "-g", "0,0 100x100", "--audio-backend", "pipewire", "-a",
            "Mic", "-p", "audio_codec=libopus", "-p", "audio_bitrate=192k", "--no-cursor",
        ])
    );
    let args = build_args(&cfg, "/o/x.webm", AudioBackend::Pulseaudio);
    assert!(args.windows(2).any(|w| w[0] == "--audio-backend" && w[1] == "pulse"));
    assert!(args.windows(2).any(|w| w[0] == "-a" && w[1] == "alsa.in"));
    let args = build_args(&cfg, "/o/x.webm", AudioBackend::NoBackend);
    assert!(!args.iter().any(|a| a == "--audio-backend"));
    cfg.audio_format = AudioFormat::NoAudio;
    let args = build_args(&cfg, "/o/x.webm", AudioBackend::Pipewire);
    assert!(!args.iter().any(|a| a == "-a"));
}

#[test]
fn post_processing_plan() {
    let mut cfg = RecordingConfig::with_output_dir("/o".to_string());
    let p = post_process(&cfg);
    assert_eq!(p.scale_to, None);
    assert!(!p.convert_gif);
    assert!(needs_faststart(&cfg, false));
    cfg.quality = VideoQuality::P720;
    let p = post_process(&cfg);
    assert_eq!(p.scale_to, Some((1280, 720)));
    assert!(!needs_faststart(&cfg, true));
    assert!(needs_faststart(&cfg, false));
    cfg.video_format = VideoFormat::Gif;
    cfg.quality = VideoQuality::Original;
    let p = post_process(&cfg);
    assert!(p.convert_gif && !needs_faststart(&cfg, false));
}

#[test]
fn ffmpeg_arguments() {
    assert_eq!(scratch_name("clip", "scaled", "mp4"), ".clip_scaled.mp4");
    assert_eq!(
        scale_args("in.mp4", 640, 360, ".t.mp4", true),
        strings(&[
            "-y", "-i", "in.mp4", "-vf", "scale=640:360:flags=lanczos,setsar=1", "-c:v", "libx264", "-preset",
            "medium", "-crf", "18", "-pix_fmt", "yuv420p", "-c:a", "copy", "-movflags", "+faststart", ".t.mp4",
        ])
    );
    assert_eq!(scale_args("a", 1, 2, "b", false).last().unwrap(), "b");
    assert_eq!(scale_args("a", 1, 2, "b", false).len(), 16);
    assert_eq!(
        faststart_args("in.mp4", "t.mp4"),
        strings(&["-y", "-i", "in.mp4", "-c", "copy", "-movflags", "+faststart", "t.mp4"])
    );
    assert_eq!(
        palette_args("v.mp4", "p.png"),
        strings(&["-y", "-i", "v.mp4", "-vf", "palettegen=stats_mode=diff", "p.png"])
    );
    assert_eq!(
        gif_args("v.mp4", "p.png", "o.gif"),
        strings(&["-y", "-i", "v.mp4", "-i", "p.png", "-lavfi", "paletteuse=dither=bayer:bayer_scale=5", "o.gif"])
    );
}

#[test]
fn signals() {
    assert_eq!(libc_signal_int(), 2);
    assert_eq!(pause_toggle_signal(true), 18);
    assert_eq!(pause_toggle_signal(false), 19);
}

#[test]
fn requested_stop_ends_idle() {
    let now = Instant::now();
    let mut s = RecorderState::new("/x.mp4".to_string(), now);
    assert!(s.status().is_recording());
    s.request_stop();
    assert!(s.stop_requested());
    let r = s.poll(vec![WorkerMsg::StderrLine("bye".to_string()), WorkerMsg::Exited { code: Some(1) }], now, true);
    assert_eq!(r, Some(RecorderStatus::Idle));
    assert_eq!(s.status(), RecorderStatus::Idle);
}

#[test]
fn unexpected_exit_reports_failure() {
    let now = Instant::now();
    let mut s = RecorderState::new("/x.mp4".to_string(), now);
    let r = s.poll(
        vec![
            WorkerMsg::StderrLine("a".to_string()),
            WorkerMsg::StderrLine("b".to_string()),
            WorkerMsg::Exited { code: Some(1) },
        ],
        now,
        true,
    );
    let want = RecorderStatus::Failed { message: "wf-recorder exited with code 1:\n\na\nb".to_string() };
    assert_eq!(r, Some(want.duplicate()));
    assert_eq!(s.status(), want);
    assert_eq!(s.status().label(), "Error: wf-recorder exited with code 1:\n\na\nb");

    let mut s = RecorderState::new("/x.mp4".to_string(), now);
    assert_eq!(
        s.poll(vec![WorkerMsg::Exited { code: Some(0) }], now, true),
        Some(RecorderStatus::Failed { message: "wf-recorder exited unexpectedly".to_string() })
    );
    let mut s = RecorderState::new("/x.mp4".to_string(), now);
    assert_eq!(
        s.poll(vec![WorkerMsg::Exited { code: None }], now, true),
        Some(RecorderStatus::Failed { message: "wf-recorder was killed".to_string() })
    );
    let mut s = RecorderState::new("/x.mp4".to_string(), now);
    assert_eq!(
        s.poll(vec![WorkerMsg::Exited { code: Some(-3) }], now, true),
        Some(RecorderStatus::Failed { message: "wf-recorder exited with code -3".to_string() })
    );
}

#[test]
fn failure_keeps_last_five_stderr_lines() {
    let now = Instant::now();
    let mut s = RecorderState::new("/x.mp4".to_string(), now);
    let mut msgs: Vec<WorkerMsg> = (1..=7).map(|i| WorkerMsg::StderrLine(format!("l{}", i))).collect();
    msgs.push(WorkerMsg::Exited { code: Some(2) });
    assert_eq!(
        s.poll(msgs, now, true),
        Some(RecorderStatus::Failed { message: "wf-recorder exited with code 2:\n\nl3\nl4\nl5\nl6\nl7".to_string() })
    );
}

#[test]
fn stderr_is_bounded() {
    let now = Instant::now();
    let mut s = RecorderState::new("/x.mp4".to_string(), now);
    let msgs: Vec<WorkerMsg> = (0..600).map(|i| WorkerMsg::StderrLine(i.to_string())).collect();
    let running = Some(RecorderStatus::Recording { started_at: now, output_path: "/x.mp4".to_string() });
    assert_eq!(s.poll(msgs, now, false), running);
    assert_eq!(s.stderr().len(), STDERR_KEEP);
    assert_eq!(s.stderr()[0], "100");
    assert_eq!(s.stderr()[STDERR_KEEP - 1], "599");
    assert!(s.status().is_recording());
}

#[test]
fn other_worker_messages() {
    let now = Instant::now();
    let mut s = RecorderState::new("/x.mp4".to_string(), now);
    let running = Some(RecorderStatus::Recording { started_at: now, output_path: "/x.mp4".to_string() });
    assert_eq!(s.poll(vec![], now, false), running);
    assert_eq!(s.status(), running.unwrap());
    let r = s.poll(vec![WorkerMsg::Started("/y.mp4".to_string())], now, false);
    assert_eq!(r, Some(RecorderStatus::Recording { started_at: now, output_path: "/y.mp4".to_string() }));
    assert_eq!(s.output_path, "/y.mp4");
    let r = s.poll(vec![WorkerMsg::IoError("wait failed".to_string()), WorkerMsg::StderrLine("z".to_string())], now, true);
    assert_eq!(r, Some(RecorderStatus::Failed { message: "wait failed".to_string() }));
    assert_eq!(s.stderr().len(), 1);
    assert_eq!(s.poll(vec![], now, true), None);
    assert_eq!(s.poll(vec![WorkerMsg::StderrLine("late".to_string())], now, true), None);
}

#[test]
fn status_labels() {
    assert_eq!(RecorderStatus::Stopping.label(), "Deteniendo…");
    assert_eq!(
        RecorderStatus::Recording { started_at: Instant::now(), output_path: String::new() }.label(),
        "Grabando"
    );
    assert!(RecorderStatus::Stopping.is_recording());
    assert!(!RecorderStatus::Idle.is_recording());
}

#[test]
fn backend_choice() {
    assert_eq!(choose_backend(true, false, true), AudioBackend::Pipewire);
    assert_eq!(choose_backend(false, true, true), AudioBackend::Pipewire);
    assert_eq!(choose_backend(false, false, true), AudioBackend::Pulseaudio);
    assert_eq!(choose_backend(false, false, false), AudioBackend::NoBackend);
    assert_eq!(AudioBackend::NoBackend.label(), "Ninguno");
}

#[test]
fn process_table_entries() {
    assert!(is_pid_entry("1234"));
    assert!(!is_pid_entry("12a"));
    assert!(!is_pid_entry("self"));
    assert!(cmdline_names_process(b"/usr/bin/pipewire\0--verbose\0", "pipewire"));
    assert!(cmdline_names_process(b"pulseaudio", "pulseaudio"));
    assert!(!cmdline_names_process(b"/usr/bin/pipewire-pulse\0", "pipewire"));
    assert!(!cmdline_names_process(b"\xff\xfe/pipewire\0", "pipewire"));
    assert!(!cmdline_names_process(b"", "pipewire"));
}

#[test]
fn wpctl_entries() {
    let s = parse_wpctl_line("  50. USB Mic  [alsa_input.usb]").unwrap();
    assert_eq!(s.name, "alsa_input.usb");
    assert_eq!(s.description, "USB Mic");
    let s = parse_wpctl_line("* 7. Plain").unwrap();
    assert_eq!(s.name, "Plain");
    assert_eq!(s.description, "Plain");
    assert!(parse_wpctl_line("1. a ] b [").is_none());
    assert!(parse_wpctl_line("1. a []").is_none());
    assert!(parse_wpctl_line("1.").is_none());
}

#[test]
fn wpctl_status_sources_block() {
    let text = "Audio\nSources:\n  * 49. Mic A [alsa_input.a]\n    50. Mic B [alsa_input.b]\n   junk\n\n  \u{0663}. Arabic [x]\nVideo\n  * 51. Cam [v4l2]\n";
    let v = parse_wpctl_status(text);
    let names: Vec<&str> = v.iter().map(|s| s.name.as_str()).collect();
    assert_eq!(names, vec!["alsa_input.a", "alsa_input.b", "x"]);
    assert_eq!(v[0].description, "Mic A");
    assert!(parse_wpctl_status("no sources here\n").is_empty());
}

#[test]
fn pactl_short_sources() {
    let text = "0\talsa_input.a\tmodule-alsa-card.c\ts16le 2ch 44100Hz\tSUSPENDED\n1\tbluez.mic\tm\ts\tRUNNING\nnot tabbed\n";
    let v = parse_pactl_short(text);
    assert_eq!(v.len(), 2);
    assert_eq!(v[1].name, "bluez.mic");
    assert_eq!(v[1].description, "bluez.mic");
}

#[test]
fn sources_by_backend() {
    let pactl = Some("0\tpa.src\tm\ts\tIDLE\n".to_string());
    let wpctl = Some("Sources:\n  * 1. W [pw.src]\n".to_string());
    let v = list_sources(AudioBackend::Pipewire, wpctl.clone(), pactl.clone());
    assert_eq!(v.len(), 1);
    assert_eq!(v[0].name, "pw.src");
    let v = list_sources(AudioBackend::Pipewire, Some("nothing\n".to_string()), pactl.clone());
    assert_eq!(v[0].name, "pa.src");
    let v = list_sources(AudioBackend::Pipewire, None, pactl.clone());
    assert_eq!(v[0].name, "pa.src");
    let v = list_sources(AudioBackend::Pulseaudio, wpctl.clone(), pactl.clone());
    assert_eq!(v[0].name, "pa.src");
    assert!(list_sources(AudioBackend::NoBackend, wpctl, pactl).is_empty());
    assert!(list_sources(AudioBackend::Pulseaudio, None, None).is_empty());
}
