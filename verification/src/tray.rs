//! The tray icon's state, icon, tooltip and menu.

use vstd::prelude::*;
use crate::recorder::{RecorderStatus, StatusView};

verus! {

/// A command chosen in the tray menu.
#[derive(Debug, Clone, Copy, PartialEq, Eq, Structural)]
pub enum TrayCmd {
    ToggleWindow,
    Start,
    Stop,
    Pause,
    Quit,
}

/// What the tray shows.
#[derive(Debug)]
pub struct TrayState {
    pub status: Option<RecorderStatus>,
    pub window_visible: bool,
    /// The recording is paused, so the menu offers to resume it.
    pub paused: bool,
}

pub struct TrayStateView {
    pub status: Option<StatusView>,
    pub window_visible: bool,
    pub paused: bool,
}

pub open spec fn status_opt_view(s: Option<RecorderStatus>) -> Option<StatusView> {
    match s {
        Some(st) => Some(st@),
        None => None,
    }
}

impl View for TrayState {
    type V = TrayStateView;

    open spec fn view(&self) -> TrayStateView {
        TrayStateView {
            status: status_opt_view(self.status),
            window_visible: self.window_visible,
            paused: self.paused,
        }
    }
}

impl Default for TrayState {
    /// No status yet, window not marked visible, not paused.
    fn default() -> (r: TrayState)
        ensures
            r.status is None,
            !r.window_visible,
            !r.paused,
    {
        TrayState { status: None, window_visible: false, paused: false }
    }
}

impl TrayState {
    /// A copy with the same value.
    pub fn duplicate(&self) -> (r: TrayState)
        ensures
            r@ == self@,
    {
        let status = match &self.status {
            Some(s) => Some(s.duplicate()),
            None => None,
        };
        TrayState { status, window_visible: self.window_visible, paused: self.paused }
    }
}

/// One entry of the tray menu.
#[derive(Debug, Clone)]
pub enum MenuEntry {
    Standard { label: String, icon_name: String, command: TrayCmd },
    Separator,
}

pub enum MenuEntryView {
    Standard { label: Seq<char>, icon_name: Seq<char>, command: TrayCmd },
    Separator,
}

impl View for MenuEntry {
    type V = MenuEntryView;

    open spec fn view(&self) -> MenuEntryView {
        match self {
            MenuEntry::Standard { label, icon_name, command } => MenuEntryView::Standard {
                label: label@,
                icon_name: icon_name@,
                command: *command,
            },
            MenuEntry::Separator => MenuEntryView::Separator,
        }
    }
}

pub open spec fn icon_for(status: Option<StatusView>) -> Seq<char> {
    match status {
        Some(StatusView::Recording { .. }) => "media-record"@,
        Some(StatusView::Stopping) => "media-playback-stop"@,
        Some(StatusView::Failed { .. }) => "dialog-warning"@,
        _ => "camera-video"@,
    }
}

/// The tooltip for a status; while recording it ends with the elapsed
/// time `secs` as `HH:MM:SS`.
pub open spec fn tooltip_for(status: Option<StatusView>, secs: u64) -> Seq<char> {
    match status {
        Some(StatusView::Recording { .. }) => "wf-recorder-gui · Grabando pantalla · "@
            + crate::ui::elapsed_text(secs as nat),
        Some(StatusView::Stopping) => "wf-recorder-gui · Deteniendo…"@,
        Some(StatusView::Failed { .. }) => "wf-recorder-gui · Error"@,
        _ => "wf-recorder-gui · Listo para grabar"@,
    }
}

/// Icon name for a status: camera when idle, red dot while recording,
/// stop while stopping, warning after a failure.
pub fn icon_name_for(status: &Option<RecorderStatus>) -> (r: &'static str)
    ensures
        r@ == icon_for(status_opt_view(*status)),
{
    match status {
        Some(RecorderStatus::Recording { .. }) => "media-record",
        Some(RecorderStatus::Stopping) => "media-playback-stop",
        Some(RecorderStatus::Failed { .. }) => "dialog-warning",
        _ => "camera-video",
    }
}

/// Tooltip text for a status, `elapsed_secs` being the time the
/// recording has run.
pub fn status_label(status: &Option<RecorderStatus>, elapsed_secs: u64) -> (r: String)
    ensures
        r@ == tooltip_for(status_opt_view(*status), elapsed_secs),
{
    match status {
        Some(RecorderStatus::Recording { .. }) => {
            let mut s = String::from_str("wf-recorder-gui · Grabando pantalla · ");
            let t = crate::ui::format_elapsed(elapsed_secs);
            s.append(t.as_str());
            s
        },
        Some(RecorderStatus::Stopping) => String::from_str("wf-recorder-gui · Deteniendo…"),
        Some(RecorderStatus::Failed { .. }) => String::from_str("wf-recorder-gui · Error"),
        _ => String::from_str("wf-recorder-gui · Listo para grabar"),
    }
}

pub open spec fn is_recording_view(status: Option<StatusView>) -> bool {
    match status {
        Some(StatusView::Recording { .. }) => true,
        Some(StatusView::Stopping) => true,
        _ => false,
    }
}

/// The tray menu for a state: show/hide the window, then start or stop,
/// then (only while recording) pause or resume, then quit.
pub open spec fn menu_for(s: TrayStateView) -> Seq<MenuEntryView> {
    let rec = is_recording_view(s.status);
    let toggle = MenuEntryView::Standard {
        label: if s.window_visible {
            "Ocultar ventana"@
        } else {
            "Mostrar ventana"@
        },
        icon_name: seq![],
        command: TrayCmd::ToggleWindow,
    };
    let record_or_stop = if rec {
        MenuEntryView::Standard {
            label: "Detener grabación"@,
            icon_name: "media-playback-stop"@,
            command: TrayCmd::Stop,
        }
    } else {
        MenuEntryView::Standard {
            label: "Iniciar grabación"@,
            icon_name: "media-record"@,
            command: TrayCmd::Start,
        }
    };
    let pause = if rec {
        seq![
            MenuEntryView::Standard {
                label: if s.paused {
                    "Reanudar grabación"@
                } else {
                    "Pausar grabación"@
                },
                icon_name: if s.paused {
                    "media-playback-start"@
                } else {
                    "media-playback-pause"@
                },
                command: TrayCmd::Pause,
            },
        ]
    } else {
        seq![]
    };
    seq![toggle, MenuEntryView::Separator, record_or_stop] + pause + seq![
        MenuEntryView::Separator,
        MenuEntryView::Standard {
            label: "Salir"@,
            icon_name: "application-exit"@,
            command: TrayCmd::Quit,
        },
    ]
}

pub open spec fn entry_views(v: Seq<MenuEntry>) -> Seq<MenuEntryView> {
    v.map_values(|e: MenuEntry| e@)
}

fn push_entry(menu: &mut Vec<MenuEntry>, label: &str, icon: &str, command: TrayCmd)
    ensures
        entry_views(final(menu)@) == entry_views(old(menu)@).push(
            MenuEntryView::Standard { label: label@, icon_name: icon@, command },
        ),
{
    menu.push(
        MenuEntry::Standard {
            label: String::from_str(label),
            icon_name: String::from_str(icon),
            command,
        },
    );
    assert(entry_views(menu@) =~= entry_views(old(menu)@).push(
        MenuEntryView::Standard { label: label@, icon_name: icon@, command },
    ));
}

fn push_separator(menu: &mut Vec<MenuEntry>)
    ensures
        entry_views(final(menu)@) == entry_views(old(menu)@).push(MenuEntryView::Separator),
{
    menu.push(MenuEntry::Separator);
    assert(entry_views(menu@) =~= entry_views(old(menu)@).push(MenuEntryView::Separator));
}

/// The menu entries for the current tray state.
pub fn menu_entries(state: &TrayState) -> (r: Vec<MenuEntry>)
    ensures
        entry_views(r@) == menu_for(state@),
{
    let is_recording = match &state.status {
        Some(s) => s.is_recording(),
        None => false,
    };
    let mut menu: Vec<MenuEntry> = Vec::new();
    let toggle_label = if state.window_visible {
        "Ocultar ventana"
    } else {
        "Mostrar ventana"
    };
    push_entry(&mut menu, toggle_label, "", TrayCmd::ToggleWindow);
    push_separator(&mut menu);
    if is_recording {
        push_entry(&mut menu, "Detener grabación", "media-playback-stop", TrayCmd::Stop);
    } else {
        push_entry(&mut menu, "Iniciar grabación", "media-record", TrayCmd::Start);
    }
    proof {
        reveal_strlit("");
        assert(""@ =~= Seq::<char>::empty());
    }
    let ghost rec = is_recording_view(state@.status);
    assert(rec == is_recording);
    let ghost head = entry_views(menu@);
    assert(head =~= menu_for(state@).take(3));
    if is_recording {
        let (pause_label, pause_icon) = if state.paused {
            ("Reanudar grabación", "media-playback-start")
        } else {
            ("Pausar grabación", "media-playback-pause")
        };
        push_entry(&mut menu, pause_label, pause_icon, TrayCmd::Pause);
    }
    let ghost mid = entry_views(menu@);
    assert(mid =~= menu_for(state@).take(if rec { 4 } else { 3 }));
    push_separator(&mut menu);
    push_entry(&mut menu, "Salir", "application-exit", TrayCmd::Quit);
    assert(entry_views(menu@) =~= menu_for(state@));
    menu
}

/// The menu offers pausing exactly while a recording runs, and always
/// ends with the quit entry.
pub proof fn law_menu_pause_only_while_recording(s: TrayStateView)
    ensures
        is_recording_view(s.status) <==> menu_for(s).len() == 6,
        !is_recording_view(s.status) <==> menu_for(s).len() == 5,
        menu_for(s).last() == (MenuEntryView::Standard {
            label: "Salir"@,
            icon_name: "application-exit"@,
            command: TrayCmd::Quit,
        }),
{
}

} // verus!
