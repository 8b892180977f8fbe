//! Session detection: whether the compositor offers the screencopy
//! protocol wf-recorder needs, and the region picked with `slurp`.

use vstd::prelude::*;
use crate::text::{chars_eq, chars_of, lemma_split_len_pos, split_chars, split_on, str_eq, string_of, trim, trim_chars};

verus! {

/// The kind of graphical session.
#[derive(Debug, Clone, Copy, PartialEq, Eq, Structural)]
pub enum SessionKind {
    /// A compositor implementing wlr-screencopy: wf-recorder works.
    Wlroots,
    /// Wayland without wlroots: wf-recorder likely fails.
    WaylandOther,
    /// X11: wf-recorder fails.
    X11,
    /// No graphical session.
    NoSession,
}

impl SessionKind {
    pub open spec fn label_text(self) -> Seq<char> {
        match self {
            SessionKind::Wlroots => "Wayland (wlroots)"@,
            SessionKind::WaylandOther => "Wayland (no wlroots)"@,
            SessionKind::X11 => "X11"@,
            SessionKind::NoSession => "Sin sesión"@,
        }
    }

    pub open spec fn warning_text(self) -> Option<Seq<char>> {
        match self {
            SessionKind::Wlroots => None,
            SessionKind::WaylandOther => Some(
                "Tu compositor Wayland no parece estar basado en wlroots. wf-recorder requiere wlr-screencopy y podría no funcionar."@,
            ),
            SessionKind::X11 => Some(
                "Estás en X11. wf-recorder solo funciona en compositores Wayland con wlr-screencopy (Sway, Wayfire, Labwc, Cage, dwl, Niri, …). La grabación probablemente fallará."@,
            ),
            SessionKind::NoSession => Some(
                "No se detectó sesión gráfica (WAYLAND_DISPLAY y DISPLAY ambos vacíos). wf-recorder no podrá capturar la pantalla."@,
            ),
        }
    }

    pub fn is_wlroots(self) -> (r: bool)
        ensures
            r == (self == SessionKind::Wlroots),
    {
        match self {
            SessionKind::Wlroots => true,
            _ => false,
        }
    }

    pub fn label(self) -> (r: &'static str)
        ensures
            r@ == self.label_text(),
    {
        match self {
            SessionKind::Wlroots => "Wayland (wlroots)",
            SessionKind::WaylandOther => "Wayland (no wlroots)",
            SessionKind::X11 => "X11",
            SessionKind::NoSession => "Sin sesión",
        }
    }

    /// One-line message for a warning dialog; none when recording works.
    pub fn warning(self) -> (r: Option<&'static str>)
        ensures
            match r {
                Some(w) => self.warning_text() == Some(w@),
                None => self.warning_text() is None,
            },
    {
        match self {
            SessionKind::Wlroots => None,
            SessionKind::WaylandOther => Some(
                "Tu compositor Wayland no parece estar basado en wlroots. wf-recorder requiere wlr-screencopy y podría no funcionar.",
            ),
            SessionKind::X11 => Some(
                "Estás en X11. wf-recorder solo funciona en compositores Wayland con wlr-screencopy (Sway, Wayfire, Labwc, Cage, dwl, Niri, …). La grabación probablemente fallará.",
            ),
            SessionKind::NoSession => Some(
                "No se detectó sesión gráfica (WAYLAND_DISPLAY y DISPLAY ambos vacíos). wf-recorder no podrá capturar la pantalla.",
            ),
        }
    }
}

/// Desktop names of compositors known to implement wlr-screencopy.
pub open spec fn screencopy_desktops() -> Seq<Seq<char>> {
    seq![
        "sway"@, "SWAY"@, "Hyprland"@, "hyprland"@, "wayfire"@, "Wayfire"@, "labwc"@, "Labwc"@,
        "river"@, "River"@, "cage"@, "Cage"@, "dwl"@, "niri"@, "Niri"@, "swayfx"@, "SwayFX"@,
        "gamescope"@, "Gamescope"@,
    ]
}

fn screencopy_desktop_list() -> (r: Vec<&'static str>)
    ensures
        r@.map_values(|s: &str| s@) == screencopy_desktops(),
{
    let r = vec![
        "sway", "SWAY", "Hyprland", "hyprland", "wayfire", "Wayfire", "labwc", "Labwc", "river",
        "River", "cage", "Cage", "dwl", "niri", "Niri", "swayfx", "SwayFX", "gamescope",
        "Gamescope",
    ];
    assert(r@.map_values(|s: &str| s@) =~= screencopy_desktops());
    r
}

/// Some `:`-separated part of `XDG_CURRENT_DESKTOP` is a known
/// screencopy compositor.
pub open spec fn desktop_has_screencopy(current_desktop: Seq<char>) -> bool {
    exists|i: int, j: int|
        #![trigger split_on(current_desktop, ':')[i], screencopy_desktops()[j]]
        0 <= i < split_on(current_desktop, ':').len() && 0 <= j < screencopy_desktops().len()
            && split_on(current_desktop, ':')[i] == screencopy_desktops()[j]
}

/// The session kind from the environment: no display at all is no
/// session; Wayland (by display or session type) is wlroots when the
/// desktop is a known screencopy compositor or `wlr-randr` is installed,
/// other Wayland otherwise; then X11 (by display or session type).
pub open spec fn session_from(
    wayland_display: bool,
    x_display: bool,
    session_type: Seq<char>,
    current_desktop: Seq<char>,
    wlr_randr_installed: bool,
) -> SessionKind {
    if !wayland_display && !x_display {
        SessionKind::NoSession
    } else if wayland_display || session_type == "wayland"@ {
        if desktop_has_screencopy(current_desktop) || wlr_randr_installed {
            SessionKind::Wlroots
        } else {
            SessionKind::WaylandOther
        }
    } else if x_display || session_type == "x11"@ {
        SessionKind::X11
    } else {
        SessionKind::NoSession
    }
}

/// Whether one of the `:`-separated parts of `current_desktop` names a
/// screencopy compositor.
pub fn has_screencopy_desktop(current_desktop: &str) -> (r: bool)
    ensures
        r == desktop_has_screencopy(current_desktop@),
{
    let known = screencopy_desktop_list();
    let cd = chars_of(current_desktop);
    let parts = split_chars(&cd, ':');
    let ghost ps = split_on(current_desktop@, ':');
    let mut i: usize = 0;
    while i < parts.len()
        invariant
            i <= parts@.len(),
            parts@.map_values(|v: Vec<char>| v@) == ps,
            ps == split_on(current_desktop@, ':'),
            known@.map_values(|s: &str| s@) == screencopy_desktops(),
            forall|a: int, b: int|
                0 <= a < i && 0 <= b < screencopy_desktops().len() ==> ps[a]
                    != screencopy_desktops()[b],
        decreases parts.len() - i,
    {
        let mut j: usize = 0;
        while j < known.len()
            invariant
                i < parts@.len(),
                j <= known@.len(),
                parts@.map_values(|v: Vec<char>| v@) == ps,
                ps == split_on(current_desktop@, ':'),
                known@.map_values(|s: &str| s@) == screencopy_desktops(),
                forall|b: int| 0 <= b < j ==> ps[i as int] != screencopy_desktops()[b],
            decreases known.len() - j,
        {
            let k = chars_of(known[j]);
            assert(parts@[i as int]@ == ps[i as int]);
            assert(known@[j as int]@ == screencopy_desktops()[j as int]);
            if chars_eq(&parts[i], &k) {
                assert(ps[i as int] == screencopy_desktops()[j as int]);
                assert(desktop_has_screencopy(current_desktop@));
                return true;
            }
            j = j + 1;
        }
        i = i + 1;
    }
    assert(!desktop_has_screencopy(current_desktop@));
    false
}

/// Classify the session from `WAYLAND_DISPLAY` and `DISPLAY` being set,
/// `XDG_SESSION_TYPE`, `XDG_CURRENT_DESKTOP`, and whether `wlr-randr` is
/// installed.
pub fn classify_session(
    wayland_display: bool,
    x_display: bool,
    session_type: &str,
    current_desktop: &str,
    wlr_randr_installed: bool,
) -> (r: SessionKind)
    ensures
        r == session_from(
            wayland_display,
            x_display,
            session_type@,
            current_desktop@,
            wlr_randr_installed,
        ),
{
    if !wayland_display && !x_display {
        return SessionKind::NoSession;
    }
    if wayland_display || str_eq(session_type, "wayland") {
        if has_screencopy_desktop(current_desktop) {
            return SessionKind::Wlroots;
        }
        if wlr_randr_installed {
            return SessionKind::Wlroots;
        }
        return SessionKind::WaylandOther;
    }
    if x_display || str_eq(session_type, "x11") {
        return SessionKind::X11;
    }
    SessionKind::NoSession
}

pub open spec fn region_from(success: bool, stdout: Seq<char>) -> Option<Seq<char>> {
    if !success || trim(stdout).len() == 0 {
        None
    } else {
        Some(trim(stdout))
    }
}

/// The geometry `slurp` printed, trimmed; none when it was cancelled
/// (non-zero exit) or printed nothing.
pub fn region_from_slurp(success: bool, stdout: &str) -> (r: Option<String>)
    ensures
        match r {
            Some(g) => region_from(success, stdout@) == Some(g@),
            None => region_from(success, stdout@) is None,
        },
{
    if !success {
        return None;
    }
    let t = trim_chars(&chars_of(stdout));
    if t.len() == 0 {
        None
    } else {
        Some(string_of(&t))
    }
}

/// Position of an output in the compositor's layout, as `wlr-randr`
/// reports it.
#[derive(Debug, Clone, Copy, PartialEq, Eq, Structural)]
pub struct WlrPosition {
    pub x: i32,
    pub y: i32,
}

impl Default for WlrPosition {
    /// The origin, used when `wlr-randr` reports no position.
    fn default() -> (r: WlrPosition)
        ensures
            r.x == 0 && r.y == 0,
    {
        WlrPosition { x: 0, y: 0 }
    }
}

/// On Wayland, a session whose `XDG_CURRENT_DESKTOP` names, in one of its
/// `:`-separated parts, a compositor known to offer wlr-screencopy (Sway,
/// SwayFX, Wayfire, Labwc, Cage, dwl, Niri, Gamescope, Hyprland, River) is
/// a wlroots session, whether or not `wlr-randr` is installed and whatever
/// the other variables say.
pub proof fn law_supported_compositors_are_wlroots(
    x_display: bool,
    session_type: Seq<char>,
    current_desktop: Seq<char>,
    wlr_randr_installed: bool,
    k: int,
)
    requires
        0 <= k < split_on(current_desktop, ':').len(),
        ({
            let n = split_on(current_desktop, ':')[k];
            ||| n == "sway"@ || n == "SWAY"@ || n == "swayfx"@ || n == "SwayFX"@
            ||| n == "wayfire"@ || n == "Wayfire"@ || n == "labwc"@ || n == "Labwc"@
            ||| n == "cage"@ || n == "Cage"@ || n == "dwl"@ || n == "niri"@ || n == "Niri"@
            ||| n == "gamescope"@ || n == "Gamescope"@ || n == "Hyprland"@ || n == "hyprland"@
            ||| n == "river"@ || n == "River"@
        }),
    ensures
        session_from(true, x_display, session_type, current_desktop, wlr_randr_installed)
            == SessionKind::Wlroots,
{
    let ps = split_on(current_desktop, ':');
    let n = ps[k];
    let l = screencopy_desktops();
    let j: int = if n == "sway"@ {
        0
    } else if n == "SWAY"@ {
        1
    } else if n == "Hyprland"@ {
        2
    } else if n == "hyprland"@ {
        3
    } else if n == "wayfire"@ {
        4
    } else if n == "Wayfire"@ {
        5
    } else if n == "labwc"@ {
        6
    } else if n == "Labwc"@ {
        7
    } else if n == "river"@ {
        8
    } else if n == "River"@ {
        9
    } else if n == "cage"@ {
        10
    } else if n == "Cage"@ {
        11
    } else if n == "dwl"@ {
        12
    } else if n == "niri"@ {
        13
    } else if n == "Niri"@ {
        14
    } else if n == "swayfx"@ {
        15
    } else if n == "SwayFX"@ {
        16
    } else if n == "gamescope"@ {
        17
    } else {
        18
    };
    assert(ps[k] == l[j]);
    assert(desktop_has_screencopy(current_desktop));
}

} // verus!
