//! Screen-recording front end for wf-recorder: the configuration model,
//! presets, command-line construction, recorder state machine, output
//! parsing of the audio/session tools and the UI decision logic, each
//! with a machine-checked contract.

pub mod audio;
pub mod cli;
pub mod config;
pub mod errors;
pub mod portals;
pub mod presets;
pub mod recorder;
pub mod shared;
pub mod text;
pub mod tray;
pub mod tui;
pub mod ui;
pub mod version;
pub mod wayland;
