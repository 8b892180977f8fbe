use std::time::Instant;

use wf_recorder_gui::audio::AudioSource;
use wf_recorder_gui::config::{AudioFormat, RecordingConfig, ResourceTier, VideoFormat, VideoQuality};
use wf_recorder_gui::portals::{shortcut_action, ShortcutAction};
use wf_recorder_gui::presets::{all, builtin_for, filter_tier, for_tier, sort_by_name, Preset};
use wf_recorder_gui::recorder::RecorderStatus;
use wf_recorder_gui::shared::{apply_preset, infer_tier};
use wf_recorder_gui::tray::{icon_name_for, menu_entries, status_label, MenuEntry, TrayCmd, TrayState};
use wf_recorder_gui::tui::{step_fps, KeyInput, Panel, TuiEffect, TuiKey, TuiModel};
use wf_recorder_gui::wayland::{classify_session, has_screencopy_desktop, region_from_slurp, SessionKind};

fn user_preset(id: &str, name: &str, tier: ResourceTier) -> Preset {
    Preset {
        id: id.to_string(),
        name: name.to_string(),
        tier,
        builtin: false,
        config: RecordingConfig::with_output_dir("/o".to_string()),
    }
}

fn ids(v: &[Preset]) -> Vec<String> {
    v.iter().map(|p| p.id.clone()).collect()
}

#[test]
fn builtin_preset_contents() {
    let p = builtin_for(ResourceTier::Medium, VideoFormat::Gif, "/o");
    assert_eq!(p.id, "medium-gif");
    assert_eq!(p.name, "Medios recursos · GIF (animated)");
    assert!(p.builtin);
    assert_eq!(p.config.video_format, VideoFormat::Gif);
    assert_eq!(p.config.crf, 23);
    assert_eq!(p.config.quality, VideoQuality::P1080);
    let p = builtin_for(ResourceTier::Low, VideoFormat::Webm, "/o");
    assert_eq!(p.id, "low-webm");
    assert_eq!(p.config.audio_format, AudioFormat::Mp3);
    assert_eq!(p.config.preset, "ultrafast");
}

#[test]
fn user_presets_sorted_stably_by_name() {
    let user = vec![
        user_preset("u1", "b", ResourceTier::Low),
        user_preset("u2", "A", ResourceTier::High),
        user_preset("u3", "a", ResourceTier::High),
        user_preset("u4", "Ábaco", ResourceTier::Medium),
    ];
    let sorted = sort_by_name(user.clone());
    assert_eq!(ids(&sorted), vec!["u2", "u3", "u1", "u4"]);
    let listing = all(user.clone(), "/o");
    assert_eq!(listing.len(), 16);
    assert!(listing[..12].iter().all(|p| p.builtin));
    assert_eq!(ids(&listing[12..]), vec!["u2", "u3", "u1", "u4"]);
    let high = for_tier(ResourceTier::High, user, "/o");
    assert!(high.iter().all(|p| p.tier == ResourceTier::High));
    assert_eq!(
        ids(&high),
        vec!["high-mp4", "high-webm", "high-mkv", "high-gif", "u2", "u3"]
    );
}

#[test]
fn for_tier_is_the_listing_filtered_by_tier() {
    let user = vec![
        user_preset("z", "zeta", ResourceTier::Medium),
        user_preset("m1", "Mid", ResourceTier::Medium),
        user_preset("l", "low one", ResourceTier::Low),
        user_preset("m2", "mid", ResourceTier::Medium),
    ];
    for tier in [ResourceTier::Low, ResourceTier::Medium, ResourceTier::High] {
        let expected: Vec<String> = all(user.clone(), "/o")
            .into_iter()
            .filter(|p| p.tier == tier)
            .map(|p| p.id)
            .collect();
        let got = for_tier(tier, user.clone(), "/o");
        assert_eq!(ids(&got), expected);
        assert!(got[..4].iter().all(|p| p.builtin && p.tier == tier));
        assert_eq!(got[0].config.video_format, VideoFormat::Mp4);
        assert_eq!(got[3].config.video_format, VideoFormat::Gif);
    }
    assert_eq!(
        ids(&for_tier(ResourceTier::Medium, user, "/o")),
        vec!["medium-mp4", "medium-webm", "medium-mkv", "medium-gif", "m1", "m2", "z"]
    );
}

#[test]
fn tier_filter_keeps_order() {
    let v = vec![
        user_preset("a", "a", ResourceTier::Low),
        user_preset("b", "b", ResourceTier::High),
        user_preset("c", "c", ResourceTier::Low),
    ];
    assert_eq!(ids(&filter_tier(v, ResourceTier::Low)), vec!["a", "c"]);
    assert!(filter_tier(vec![], ResourceTier::Low).is_empty());
}

#[test]
fn user_preset_files() {
    assert_eq!(Preset::user_path("/home/u/.config/p", "mi-preset"), "/home/u/.config/p/mi-preset.json");
    let mut p = user_preset("x", "x", ResourceTier::Low);
    p.builtin = true;
    let p = Preset::loaded_user(p);
    assert!(!p.builtin);
    assert_eq!(p.id, "x");
}

#[test]
fn applying_a_preset_keeps_the_session() {
    let mut cfg = RecordingConfig::with_output_dir("/mine".to_string());
    cfg.audio_source = "mic".to_string();
    cfg.geometry = "1,1 2x2".to_string();
    cfg.countdown_secs = 3;
    let p = builtin_for(ResourceTier::High, VideoFormat::Mkv, "/o");
    apply_preset(&mut cfg, &p);
    assert_eq!(cfg.output_dir, "/mine");
    assert_eq!(cfg.audio_source, "mic");
    assert_eq!(cfg.geometry, "1,1 2x2");
    assert_eq!(cfg.countdown_secs, 3);
    assert_eq!(cfg.fps, 60);
    assert_eq!(cfg.video_format, VideoFormat::Mkv);
    assert_eq!(cfg.preset, "veryfast");
    assert_eq!(infer_tier(&cfg), ResourceTier::High);
}

#[test]
fn tier_is_inferred_from_fps_and_crf() {
    let mut cfg = RecordingConfig::with_output_dir("/o".to_string());
    assert_eq!(infer_tier(&cfg), ResourceTier::Medium);
    cfg.fps = 60;
    cfg.crf = 25;
    assert_eq!(infer_tier(&cfg), ResourceTier::Medium);
    cfg.crf = 20;
    assert_eq!(infer_tier(&cfg), ResourceTier::High);
    cfg.fps = 24;
    assert_eq!(infer_tier(&cfg), ResourceTier::Low);
}

#[test]
fn shortcut_ids_map_to_actions() {
    assert_eq!(shortcut_action("start"), Some(ShortcutAction::Start));
    assert_eq!(shortcut_action("stop"), Some(ShortcutAction::Stop));
    assert_eq!(shortcut_action("pause"), Some(ShortcutAction::Pause));
    assert_eq!(shortcut_action("Start"), None);
}

#[test]
fn session_classification() {
    assert_eq!(classify_session(false, false, "wayland", "sway", true), SessionKind::NoSession);
    assert_eq!(classify_session(true, false, "", "sway", false), SessionKind::Wlroots);
    assert_eq!(classify_session(true, false, "", "GNOME", false), SessionKind::WaylandOther);
    assert_eq!(classify_session(true, false, "", "GNOME", true), SessionKind::Wlroots);
    assert_eq!(classify_session(false, true, "x11", "", true), SessionKind::X11);
    assert_eq!(classify_session(false, true, "wayland", "KDE:niri", false), SessionKind::Wlroots);
    assert!(has_screencopy_desktop("ubuntu:Hyprland"));
    assert!(!has_screencopy_desktop("ubuntu:GNOME"));
    assert!(!has_screencopy_desktop(""));
    assert_eq!(SessionKind::WaylandOther.label(), "Wayland (no wlroots)");
    assert!(SessionKind::NoSession.warning().unwrap().contains("WAYLAND_DISPLAY"));
    assert!(SessionKind::Wlroots.is_wlroots());
}

#[test]
fn slurp_region() {
    assert_eq!(region_from_slurp(true, "10,20 300x200\n"), Some("10,20 300x200".to_string()));
    assert_eq!(region_from_slurp(false, "10,20 300x200\n"), None);
    assert_eq!(region_from_slurp(true, "  \n"), None);
}

fn labels(menu: &[MenuEntry]) -> Vec<String> {
    menu.iter()
        .map(|e| match e {
            MenuEntry::Standard { label, .. } => label.clone(),
            MenuEntry::Separator => "-".to_string(),
        })
        .collect()
}

#[test]
fn tray_menu_follows_the_status() {
    let idle = TrayState::default();
    let menu = menu_entries(&idle);
    assert_eq!(labels(&menu), vec!["Mostrar ventana", "-", "Iniciar grabación", "-", "Salir"]);
    let rec = TrayState {
        status: Some(RecorderStatus::Recording { started_at: Instant::now(), output_path: "/x".to_string() }),
        window_visible: true,
        paused: true,
    };
    let menu = menu_entries(&rec);
    assert_eq!(
        labels(&menu),
        vec!["Ocultar ventana", "-", "Detener grabación", "Reanudar grabación", "-", "Salir"]
    );
    match &menu[3] {
        MenuEntry::Standard { icon_name, command, .. } => {
            assert_eq!(icon_name, "media-playback-start");
            assert_eq!(*command, TrayCmd::Pause);
        }
        MenuEntry::Separator => panic!("expected the pause entry"),
    }
    let copy = rec.duplicate();
    assert_eq!(copy.paused, rec.paused);
    let stopping = TrayState { status: Some(RecorderStatus::Stopping), window_visible: false, paused: false };
    assert_eq!(labels(&menu_entries(&stopping))[3], "Pausar grabación");
}

#[test]
fn tray_icon_and_tooltip() {
    assert_eq!(icon_name_for(&None), "camera-video");
    assert_eq!(icon_name_for(&Some(RecorderStatus::Idle)), "camera-video");
    assert_eq!(icon_name_for(&Some(RecorderStatus::Stopping)), "media-playback-stop");
    assert_eq!(icon_name_for(&Some(RecorderStatus::Failed { message: "x".to_string() })), "dialog-warning");
    assert_eq!(status_label(&None, 0), "wf-recorder-gui · Listo para grabar");
    assert_eq!(
        status_label(&Some(RecorderStatus::Recording { started_at: Instant::now(), output_path: String::new() }), 3725),
        "wf-recorder-gui · Grabando pantalla · 01:02:05"
    );
    assert_eq!(status_label(&Some(RecorderStatus::Stopping), 9), "wf-recorder-gui · Deteniendo…");
}

fn key(code: TuiKey) -> KeyInput {
    KeyInput { code, control: false, other_modifiers: false }
}

fn model() -> TuiModel {
    let presets = wf_recorder_gui::presets::for_tier(ResourceTier::Low, vec![], "/o");
    TuiModel::new(
        RecordingConfig::with_output_dir("/o".to_string()),
        ResourceTier::Low,
        presets,
        vec!["DP-1".to_string(), "HDMI-A-1".to_string()],
        vec![AudioSource { name: "mic".to_string(), description: "Mic".to_string() }],
    )
}

#[test]
fn panels_cycle() {
    for p in Panel::ALL {
        assert_eq!(p.next().prev(), p);
        assert_eq!(p.prev().next(), p);
        let mut q = p;
        for _ in 0..6 {
            q = q.next();
        }
        assert_eq!(q, p);
    }
    assert_eq!(Panel::Record.next(), Panel::Profile);
}

#[test]
fn tui_global_keys() {
    let mut m = model();
    assert_eq!(m.focused, Panel::Profile);
    assert_eq!(m.handle_key(key(TuiKey::Char('q'))), TuiEffect::Quit);
    assert_eq!(
        m.handle_key(KeyInput { code: TuiKey::Char('c'), control: true, other_modifiers: false }),
        TuiEffect::Quit
    );
    assert_eq!(m.handle_key(key(TuiKey::Char('r'))), TuiEffect::StartRecording);
    assert_eq!(
        m.handle_key(KeyInput { code: TuiKey::Char('r'), control: true, other_modifiers: false }),
        TuiEffect::Nothing
    );
    assert_eq!(m.handle_key(key(TuiKey::Char('s'))), TuiEffect::StopRecording);
    assert_eq!(m.handle_key(key(TuiKey::Char('p'))), TuiEffect::TogglePause);
    m.handle_key(key(TuiKey::Char('?')));
    assert!(m.show_help);
    assert_eq!(m.handle_key(key(TuiKey::Char('r'))), TuiEffect::Nothing);
    m.handle_key(key(TuiKey::Esc));
    assert!(!m.show_help);
    m.handle_key(key(TuiKey::BackTab));
    assert_eq!(m.focused, Panel::Record);
    assert_eq!(m.handle_key(key(TuiKey::Enter)), TuiEffect::StartRecording);
    m.handle_key(key(TuiKey::Tab));
    assert_eq!(m.focused, Panel::Profile);
}

#[test]
fn tui_profile_panel_applies_presets() {
    let mut m = model();
    m.handle_key(key(TuiKey::Down));
    assert_eq!(m.sel_preset, 1);
    m.handle_key(key(TuiKey::Enter));
    assert_eq!(m.config.fps, 24);
    assert_eq!(m.config.quality, VideoQuality::P720);
    assert_eq!(m.sel_quality, 4);
    assert_eq!(m.sel_audio_fmt, 1);
    m.handle_key(key(TuiKey::Up));
    m.handle_key(key(TuiKey::Up));
    assert_eq!(m.sel_preset, 4);
    m.handle_key(key(TuiKey::Char('g')));
    assert_eq!(m.sel_preset, 0);
    assert_eq!(m.handle_key(key(TuiKey::Char('t'))), TuiEffect::ReloadPresets);
    assert_eq!(m.tier, ResourceTier::Medium);
    let presets = wf_recorder_gui::presets::for_tier(ResourceTier::Medium, vec![], "/o");
    m.set_presets(presets);
    assert_eq!(m.presets[0].id, "medium-mp4");
}

#[test]
fn tui_output_panel_and_prompt() {
    let mut m = model();
    m.focus(Panel::Output);
    m.handle_key(key(TuiKey::Down));
    assert_eq!(m.config.video_format, VideoFormat::Webm);
    m.handle_key(key(TuiKey::Up));
    m.handle_key(key(TuiKey::Up));
    assert_eq!(m.config.video_format, VideoFormat::Gif);
    m.handle_key(key(TuiKey::Char('o')));
    assert_eq!(m.input_mode.as_ref().unwrap().buffer, "/o");
    assert_eq!(m.handle_key(key(TuiKey::Char('q'))), TuiEffect::Nothing);
    m.handle_key(key(TuiKey::Backspace));
    m.handle_key(key(TuiKey::Char('x')));
    m.handle_key(key(TuiKey::Enter));
    assert!(m.input_mode.is_none());
    assert_eq!(m.config.output_dir, "/ox");
    m.handle_key(key(TuiKey::Char('o')));
    m.handle_key(key(TuiKey::Char('z')));
    m.handle_key(key(TuiKey::Esc));
    assert_eq!(m.config.output_dir, "/ox");
}

#[test]
fn tui_video_audio_and_input_panels() {
    let mut m = model();
    m.focus(Panel::Video);
    m.handle_key(key(TuiKey::Right));
    assert_eq!(m.config.fps, 31);
    m.handle_key(key(TuiKey::Left));
    m.handle_key(key(TuiKey::Left));
    assert_eq!(m.config.fps, 29);
    m.handle_key(key(TuiKey::Char('d')));
    assert!(!m.config.use_dmabuf);
    m.handle_key(key(TuiKey::Char('t')));
    m.handle_key(key(TuiKey::Char('t')));
    assert_eq!(m.config.countdown_secs, 5);
    m.handle_key(key(TuiKey::Up));
    assert_eq!(m.config.quality, VideoQuality::Manual);

    m.focus(Panel::Audio);
    m.handle_key(key(TuiKey::Char('a')));
    assert_eq!(m.config.audio_source, "mic");
    assert_eq!(m.config.audio_source_desc, "Mic");
    m.handle_key(key(TuiKey::Char('a')));
    assert_eq!(m.config.audio_source, "");
    m.handle_key(key(TuiKey::Up));
    assert_eq!(m.config.audio_format, AudioFormat::NoAudio);

    m.focus(Panel::Input);
    m.handle_key(key(TuiKey::Up));
    assert_eq!(m.config.output, "HDMI-A-1");
    m.handle_key(key(TuiKey::Down));
    assert_eq!(m.config.output, "");
    assert_eq!(m.handle_key(key(TuiKey::Char('g'))), TuiEffect::PickRegion);
    m.set_region("5,5 10x10".to_string());
    assert_eq!(m.config.geometry, "5,5 10x10");
    assert_eq!(m.handle_key(key(TuiKey::Char(' '))), TuiEffect::TogglePause);
}

#[test]
fn fps_steps_stay_in_range() {
    assert_eq!(step_fps(30, 1), 31);
    assert_eq!(step_fps(15, -1), 15);
    assert_eq!(step_fps(144, 1), 144);
    assert_eq!(step_fps(10, 1), 15);
    assert_eq!(step_fps(200, -1), 144);
    assert_eq!(step_fps(u32::MAX, 1), 15);
}

#[test]
fn prompt_cancel_and_backspace_undo() {
    let mut m = model();
    m.focus(Panel::Output);
    m.handle_key(key(TuiKey::Char('o')));
    assert!(m.input_mode.is_some());
    m.handle_key(key(TuiKey::Char('x')));
    m.handle_key(key(TuiKey::Backspace));
    assert_eq!(m.input_mode.as_ref().unwrap().buffer, "/o");
    m.handle_key(key(TuiKey::Esc));
    assert!(m.input_mode.is_none());
    assert_eq!(m.config.output_dir, "/o");
    assert_eq!(m.focused, Panel::Output);
    assert_eq!(m.config.video_format, VideoFormat::Mp4);
}

#[test]
fn builtin_list_is_indexed_by_tier_and_format() {
    let bs = wf_recorder_gui::presets::builtins("/o");
    for (ti, t) in ResourceTier::ALL.iter().enumerate() {
        for (fi, f) in VideoFormat::ALL.iter().enumerate() {
            let p = &bs[4 * ti + fi];
            assert_eq!(p.tier, *t);
            assert_eq!(p.config.video_format, *f);
            assert_eq!(p.id, format!("{}-{}", ["low", "medium", "high"][ti], f.extension()));
        }
    }
}

#[test]
fn high_tier_uses_aac_in_mp4_containers() {
    assert_eq!(builtin_for(ResourceTier::High, VideoFormat::Mp4, "/o").config.audio_format, AudioFormat::Aac);
    assert_eq!(builtin_for(ResourceTier::High, VideoFormat::Gif, "/o").config.audio_format, AudioFormat::Aac);
    assert_eq!(builtin_for(ResourceTier::High, VideoFormat::Webm, "/o").config.audio_format, AudioFormat::Opus);
    assert_eq!(builtin_for(ResourceTier::High, VideoFormat::Mkv, "/o").config.output_dir, "/o");
}
