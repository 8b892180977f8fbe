//! Version and identity of the program.

use vstd::prelude::*;

verus! {

/// Version shown in the About dialog and by `--version`.
pub const VERSION: &'static str = "1.0-beta";

/// One-line description shown in the About dialog.
pub const DESCRIPTION: &'static str = "Grabador de pantalla para compositores wlroots y Smithay (Sway, Wayfire, Labwc, Cage, dwl, Niri)";

/// Name shown to the user.
pub const APP_NAME: &'static str = "WFRecorderGUI";

/// SPDX license identifier.
pub const LICENSE: &'static str = "MIT";

} // verus!
