//! Subcommands of the program and the choices made from its invocation.

use vstd::prelude::*;
use crate::text::{chars_eq, chars_of, lemma_split_len_pos, split_chars, split_on};

verus! {

/// The subcommand to run.
#[derive(Debug, Clone, Copy, PartialEq, Eq, Structural)]
pub enum Cmd {
    /// The GTK GUI (the default).
    Gui,
    /// The terminal UI.
    Tui,
    /// Diagnostic information.
    Info,
    /// Version information.
    About,
}

/// The parsed command line.
#[derive(Debug, Clone)]
pub struct Cli {
    /// Log verbosity: how many times `-v` was given.
    pub verbose: u8,
    pub command: Option<Cmd>,
}

impl Cli {
    /// The subcommand to run, the GUI when none was given.
    pub fn effective_cmd(&self) -> (r: Cmd)
        ensures
            r == match self.command {
                Some(c) => c,
                None => Cmd::Gui,
            },
    {
        match self.command {
            Some(c) => c,
            None => Cmd::Gui,
        }
    }
}

pub open spec fn tui_alias(argv0: Seq<char>) -> bool {
    split_on(argv0, '/').last() == "wf-recorder-tui"@
}

/// Whether the program was invoked as `wf-recorder-tui` (the file name
/// after the last `/` of `argv[0]`), which starts the TUI directly.
pub fn invoked_as_tui(argv0: &str) -> (r: bool)
    ensures
        r == tui_alias(argv0@),
{
    let v = chars_of(argv0);
    let parts = split_chars(&v, '/');
    proof {
        lemma_split_len_pos(v@, '/');
    }
    let n = parts.len();
    assert(parts@.map_values(|p: Vec<char>| p@)[n - 1] == parts@[n - 1]@);
    chars_eq(&parts[n - 1], &chars_of("wf-recorder-tui"))
}

pub open spec fn log_level(verbose: u8) -> Seq<char> {
    if verbose == 0 {
        "warn"@
    } else if verbose == 1 {
        "info"@
    } else if verbose == 2 {
        "debug"@
    } else {
        "trace"@
    }
}

/// The default log filter for a verbosity.
pub fn log_filter(verbose: u8) -> (r: &'static str)
    ensures
        r@ == log_level(verbose),
{
    if verbose == 0 {
        "warn"
    } else if verbose == 1 {
        "info"
    } else if verbose == 2 {
        "debug"
    } else {
        "trace"
    }
}

} // verus!
