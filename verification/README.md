# wf-recorder-gui

A GTK3 GUI and a terminal UI for [wf-recorder](https://github.com/ammen99/wf-recorder)
on wlroots and Smithay compositors (Sway, Wayfire, Labwc, Cage, dwl, Niri).

The crate has two parts:

- `src/` — the library, written in Verus and proved against its contracts:
  the wf-recorder and ffmpeg argument lists, output file names, presets and
  their ordering, the parsing of `wpctl status`, `pactl list short sources`,
  `/proc/<pid>/cmdline` and `slurp` output, session classification, the
  recorder's status machine, the tray menu, keyboard accelerators and the
  TUI's key handling. Each module states its laws as public proof functions
  (`law_*`).
- `app/` — the program around it: command line, configuration and preset
  files, process spawning, the tray icon, the desktop portal, and the GTK
  and ratatui front ends.

Tests of the library are under `tests/`.
