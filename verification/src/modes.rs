//! The editor's input modes.

use vstd::prelude::*;

verus! {

/// The modal state machine: every keystroke is interpreted through the
/// current mode. `Quit` is terminal — the run loop exits on it.
/// `ShellEscape` asks the driver to run the pending command line in a
/// shell.
#[derive(Clone, Copy, PartialEq, Eq, Structural, Debug)]
pub enum Mode {
    Default,
    Command,
    Insert,
    Replace,
    Title,
    TitleCommand,
    ShellEscape,
    Quit,
}

} // verus!
