//! The command interpreter: consumes the pending `:`/`/` line and applies
//! it to the session.
//!
//! Rules are tried in precedence order and the first match wins: the hex
//! offset jump, the three spaced prefixes (`:e `, `:w `, `:set `), the
//! exact keywords on the trimmed line, the numeric `:b<n>` tab jump, then
//! the positional flag scan (`q`, `w`, a leading `!` for a shell escape),
//! and finally the `/` search hook. Bad input never fails: the command is
//! dropped and only the pending line is cleared.
//!
//! File system work never happens here: a command that needs it returns a
//! [`CommandAction`] for the driver, and the driver feeds the result back
//! (see [`apply_open`]).

use vstd::prelude::*;

use crate::app::{open_base, App};
use crate::cursor::HexCursor;
use crate::file::File;
use crate::modes::Mode;
use crate::numparse::{dec_usize_parse, hex_i64_parse, parse_dec_usize, parse_hex_i64};
use crate::tabs::Tab;
use crate::text::{
    chars_eq_str, chars_start_with, seq_starts_with, string_chars, string_from_chars, subvec,
    trim_chars, trimmed,
};

verus! {

/// The file system work a submitted command asks for; the driver performs
/// it after the pure state changes are already applied.
pub enum CommandAction {
    /// Nothing left to do.
    Idle,
    /// Open this path as a new buffer: read it, or start empty, then hand
    /// the bytes to [`apply_open`].
    OpenPath(String),
    /// Write these bytes to this path, durably flushed.
    WriteTo(String, Vec<u8>),
}

/// The command classes, in precedence order.
pub enum CmdKind {
    GotoHex,
    OpenCmd,
    WriteCmd,
    SetCmd,
    TabNextCmd,
    TabPrevCmd,
    CloseTabCmd,
    InspectorOpen,
    InspectorClose,
    InspectorToggle,
    HelpCmd,
    BufferJump,
    ShellCmd,
    FlagsCmd,
    SearchCmd,
    PlainText,
}

/// Which rule a submitted line falls under: the first match in the
/// interpreter's precedence order.
pub open spec fn classify(cmd: Seq<char>) -> CmdKind {
    if seq_starts_with(cmd, ":0x"@) {
        CmdKind::GotoHex
    } else if seq_starts_with(cmd, ":e "@) {
        CmdKind::OpenCmd
    } else if seq_starts_with(cmd, ":w "@) {
        CmdKind::WriteCmd
    } else if seq_starts_with(cmd, ":set "@) {
        CmdKind::SetCmd
    } else if trimmed(cmd) == ":bnext"@ || trimmed(cmd) == ":bn"@ {
        CmdKind::TabNextCmd
    } else if trimmed(cmd) == ":bprev"@ || trimmed(cmd) == ":bp"@ {
        CmdKind::TabPrevCmd
    } else if trimmed(cmd) == ":bd"@ {
        CmdKind::CloseTabCmd
    } else if trimmed(cmd) == ":topen"@ {
        CmdKind::InspectorOpen
    } else if trimmed(cmd) == ":tclose"@ {
        CmdKind::InspectorClose
    } else if trimmed(cmd) == ":ttoggle"@ {
        CmdKind::InspectorToggle
    } else if trimmed(cmd) == ":help"@ {
        CmdKind::HelpCmd
    } else if seq_starts_with(trimmed(cmd), ":b"@) {
        CmdKind::BufferJump
    } else if cmd.len() >= 2 && cmd[0] == ':' && cmd[1] == '!' {
        CmdKind::ShellCmd
    } else if cmd.len() >= 1 && cmd[0] == ':' {
        CmdKind::FlagsCmd
    } else if cmd.len() >= 1 && cmd[0] == '/' {
        CmdKind::SearchCmd
    } else {
        CmdKind::PlainText
    }
}

/// Where an offset jump lands on a buffer of `filesize` bytes: clamped to
/// the last byte (negative requests, which the original program reached
/// through address wrap-around, land there too), or 0 on an empty buffer.
pub open spec fn goto_target(x: int, filesize: int) -> int {
    if filesize <= 0 {
        0
    } else if x < 0 || x >= filesize {
        filesize - 1
    } else {
        x
    }
}

/// `f` with its cursor on linear offset `t`.
pub open spec fn file_with_cursor(f: File, t: int) -> File {
    File { cursor: HexCursor { pos: (((t % 16) * 2) as usize, (t / 16) as usize) }, ..f }
}

/// The tab list after an offset jump: the active buffer's cursor moves to
/// the clamped target; without an active buffer nothing changes.
pub open spec fn goto_hex_applied(tabs: Seq<Tab>, idx: int, x: int, post: Seq<Tab>) -> bool {
    if 0 <= idx < tabs.len() && tabs[idx] is File {
        tabs[idx] matches Tab::File(f) && post == tabs.update(
            idx,
            Tab::File(file_with_cursor(f, goto_target(x, f.data@.len() as int))),
        )
    } else {
        post == tabs
    }
}

/// The action a save produces: the active buffer's bytes towards
/// `over_path` (or its own path), or no action without an active buffer.
pub open spec fn write_action(
    tabs: Seq<Tab>,
    idx: int,
    over_path: Option<Seq<char>>,
    act: CommandAction,
) -> bool {
    if 0 <= idx < tabs.len() && tabs[idx] is File {
        tabs[idx] matches Tab::File(f) && act matches CommandAction::WriteTo(p, d) && p@ == (
        match over_path {
            Some(q) => q,
            None => f.path@,
        }) && d@ == f.data@
    } else {
        act is Idle
    }
}

/// The command text holds flag `c` anywhere after the leading `:`.
pub open spec fn has_flag(s: Seq<char>, c: char) -> bool {
    exists|i: int| 1 <= i < s.len() && s[i] == c
}

/// Executable scan for a flag character after the leading `:`.
pub fn find_flag(v: &Vec<char>, c: char) -> (r: bool)
    ensures
        r == has_flag(v@, c),
{
    let mut i: usize = 1;
    while i < v.len()
        invariant
            1 <= i,
            forall|j: int| 1 <= j < i && j < v@.len() ==> v@[j] != c,
        decreases v@.len() - i,
    {
        if v[i] == c {
            return true;
        }
        i = i + 1;
    }
    false
}

/// Everything but the pending command line (which is cleared) is left
/// alone.
pub open spec fn untouched_but_command(pre: App, post: App) -> bool {
    &&& post.tabs == pre.tabs
    &&& post.mode == pre.mode
    &&& post.tabs_index == pre.tabs_index
    &&& post.line_count == pre.line_count
    &&& post.options == pre.options
    &&& post.command@.len() == 0
}

/// The full effect of one submitted command line on the session: `post`
/// and `act` against `pre`, one clause per rule of the interpreter, first
/// match wins on `pre`'s pending command line.
pub open spec fn dispatch_post(pre: App, post: App, act: CommandAction) -> bool {
    let cmd = pre.command@;
    &&& post.line_count == pre.line_count
    &&& match classify(cmd) {
        CmdKind::GotoHex => {
            &&& act is Idle
            &&& post.mode == pre.mode
            &&& post.tabs_index == pre.tabs_index
            &&& post.options == pre.options
            &&& post.command@.len() == 0
            &&& match hex_i64_parse(cmd.skip(3)) {
                Some(x) => goto_hex_applied(
                    pre.tabs@,
                    pre.tabs_index as int,
                    x as int,
                    post.tabs@,
                ),
                None => post.tabs == pre.tabs,
            }
        },
        CmdKind::OpenCmd => {
            &&& untouched_but_command(pre, post)
            &&& act matches CommandAction::OpenPath(p) && p@ == cmd.skip(3)
        },
        CmdKind::WriteCmd => {
            &&& untouched_but_command(pre, post)
            &&& write_action(
                pre.tabs@,
                pre.tabs_index as int,
                Some(cmd.skip(3)),
                act,
            )
        },
        CmdKind::SetCmd => {
            &&& act is Idle
            &&& post.tabs == pre.tabs
            &&& post.mode == pre.mode
            &&& post.tabs_index == pre.tabs_index
            &&& post.command@.len() == 0
            &&& post.options.type_inspector == pre.options.type_inspector
            &&& post.options.big_endian == ({
                let tok = cmd.skip(5);
                if tok == "be"@ || tok == "bigendian"@ {
                    true
                } else if tok == "le"@ || tok == "littleendian"@ {
                    false
                } else {
                    pre.options.big_endian
                }
            })
        },
        CmdKind::TabNextCmd => {
            &&& act is Idle
            &&& post.tabs == pre.tabs
            &&& post.mode == pre.mode
            &&& post.options == pre.options
            &&& post.command@.len() == 0
            &&& post.tabs_index as int == if pre.tabs@.len() > 0 {
                (pre.tabs_index + 1) as int % (pre.tabs@.len() as int)
            } else {
                pre.tabs_index as int
            }
        },
        CmdKind::TabPrevCmd => {
            &&& act is Idle
            &&& post.tabs == pre.tabs
            &&& post.mode == pre.mode
            &&& post.options == pre.options
            &&& post.command@.len() == 0
            &&& post.tabs_index as int == if pre.tabs@.len() == 0 {
                pre.tabs_index as int
            } else if pre.tabs_index > 0 {
                pre.tabs_index - 1
            } else {
                pre.tabs@.len() - 1
            }
        },
        CmdKind::CloseTabCmd => {
            &&& act is Idle
            &&& post.options == pre.options
            &&& post.command@.len() == 0
            &&& if pre.tabs@.len() == 0 {
                post.tabs == pre.tabs && post.mode == pre.mode && post.tabs_index
                    == pre.tabs_index
            } else {
                &&& post.tabs@ == pre.tabs@.remove(pre.tabs_index as int)
                &&& (post.tabs@.len() == 0 ==> post.mode == Mode::Quit
                    && post.tabs_index == 0)
                &&& (post.tabs@.len() > 0 ==> post.mode == pre.mode
                    && post.tabs_index as int == (
                if pre.tabs_index == post.tabs@.len() {
                    pre.tabs_index - 1
                } else {
                    pre.tabs_index as int
                }))
            }
        },
        CmdKind::InspectorOpen => {
            &&& act is Idle
            &&& post.tabs == pre.tabs
            &&& post.mode == pre.mode
            &&& post.tabs_index == pre.tabs_index
            &&& post.command@.len() == 0
            &&& post.options.big_endian == pre.options.big_endian
            &&& post.options.type_inspector
        },
        CmdKind::InspectorClose => {
            &&& act is Idle
            &&& post.tabs == pre.tabs
            &&& post.mode == pre.mode
            &&& post.tabs_index == pre.tabs_index
            &&& post.command@.len() == 0
            &&& post.options.big_endian == pre.options.big_endian
            &&& !post.options.type_inspector
        },
        CmdKind::InspectorToggle => {
            &&& act is Idle
            &&& post.tabs == pre.tabs
            &&& post.mode == pre.mode
            &&& post.tabs_index == pre.tabs_index
            &&& post.command@.len() == 0
            &&& post.options.big_endian == pre.options.big_endian
            &&& post.options.type_inspector == !pre.options.type_inspector
        },
        CmdKind::HelpCmd => {
            &&& act is Idle
            &&& post.mode == pre.mode
            &&& post.options == pre.options
            &&& post.command@.len() == 0
            &&& post.tabs@ == open_base(pre.tabs@).push(Tab::Help)
            &&& post.tabs_index as int == post.tabs@.len() - 1
        },
        CmdKind::BufferJump => {
            &&& act is Idle
            &&& post.tabs == pre.tabs
            &&& post.mode == pre.mode
            &&& post.options == pre.options
            &&& post.command@.len() == 0
            &&& post.tabs_index as int == (match dec_usize_parse(
                trimmed(cmd).skip(2),
            ) {
                Some(n) => if n >= 1 && n - 1 < pre.tabs@.len() {
                    n - 1
                } else {
                    pre.tabs_index as int
                },
                None => pre.tabs_index as int,
            })
        },
        CmdKind::ShellCmd => {
            &&& act is Idle
            &&& post.tabs == pre.tabs
            &&& post.tabs_index == pre.tabs_index
            &&& post.options == pre.options
            &&& post.mode == Mode::ShellEscape
            &&& post.command@ == cmd.skip(2)
        },
        CmdKind::FlagsCmd => {
            &&& post.tabs == pre.tabs
            &&& post.tabs_index == pre.tabs_index
            &&& post.options == pre.options
            &&& post.command@.len() == 0
            &&& post.mode == (if has_flag(cmd, 'q') {
                Mode::Quit
            } else {
                pre.mode
            })
            &&& if has_flag(cmd, 'w') {
                write_action(pre.tabs@, pre.tabs_index as int, None, act)
            } else {
                act is Idle
            }
        },
        CmdKind::SearchCmd => {
            &&& untouched_but_command(pre, post)
            &&& act is Idle
        },
        CmdKind::PlainText => {
            &&& untouched_but_command(pre, post)
            &&& act is Idle
        },
    }
}

impl App {
    /// Consumes and interprets the pending command line. The returned
    /// action names the file system work (if any) the driver still owes;
    /// every other effect is applied here, per the rule the line falls
    /// under.
    pub fn handle_command(&mut self) -> (act: CommandAction)
        requires
            old(self).wf(),
        ensures
            final(self).wf(),
            dispatch_post(*old(self), *final(self), act),
    {
        proof {
            reveal_strlit(":0x");
            reveal_strlit(":e ");
            reveal_strlit(":w ");
            reveal_strlit(":set ");
            reveal_strlit(":b");
        }
        let cmd_chars = string_chars(self.command.as_str());
        self.command = String::new();
        let ghost cmd = old(self).command@;
        let n = cmd_chars.len();
        if chars_start_with(&cmd_chars, ":0x") {
            let rest = subvec(&cmd_chars, 3, n);
            assert(rest@ =~= cmd.skip(3));
            match parse_hex_i64(&rest) {
                Some(x) => {
                    let idx = self.tabs_index;
                    if idx < self.tabs.len() {
                        match &mut self.tabs[idx] {
                            Tab::File(f) => {
                                let filesize = f.data.len();
                                let target: usize = if x < 0 {
                                    if filesize > 0 {
                                        filesize - 1
                                    } else {
                                        0
                                    }
                                } else if filesize == 0 {
                                    0
                                } else {
                                    let xu = x as u64;
                                    if xu >= filesize as u64 {
                                        filesize - 1
                                    } else {
                                        xu as usize
                                    }
                                };
                                assert(target as int == goto_target(x as int, filesize as int));
                                f.cursor.goto(target);
                                proof {
                                    crate::cursor::lemma_goto_roundtrip(target as int);
                                }
                            },
                            _ => {},
                        }
                        proof {
                            if !(old(self).tabs@[idx as int] is File) {
                                assert(self.tabs@ =~= old(self).tabs@);
                            }
                        }
                    }
                },
                None => {},
            }
            CommandAction::Idle
        } else if chars_start_with(&cmd_chars, ":e ") {
            let path = subvec(&cmd_chars, 3, n);
            assert(path@ =~= cmd.skip(3));
            CommandAction::OpenPath(string_from_chars(&path))
        } else if chars_start_with(&cmd_chars, ":w ") {
            let path = subvec(&cmd_chars, 3, n);
            assert(path@ =~= cmd.skip(3));
            if self.tabs.len() > 0 {
                let path_string = string_from_chars(&path);
                match self.write(Some(path_string.as_str())) {
                    Some(out) => CommandAction::WriteTo(out.0, out.1),
                    None => CommandAction::Idle,
                }
            } else {
                CommandAction::Idle
            }
        } else if chars_start_with(&cmd_chars, ":set ") {
            let tok = subvec(&cmd_chars, 5, n);
            assert(tok@ =~= cmd.skip(5));
            if chars_eq_str(&tok, "be") || chars_eq_str(&tok, "bigendian") {
                self.options.big_endian = true;
            } else if chars_eq_str(&tok, "le") || chars_eq_str(&tok, "littleendian") {
                self.options.big_endian = false;
            }
            CommandAction::Idle
        } else {
            let t = trim_chars(&cmd_chars);
            if chars_eq_str(&t, ":bnext") || chars_eq_str(&t, ":bn") {
                if self.tabs.len() > 0 {
                    self.tab_next();
                }
                CommandAction::Idle
            } else if chars_eq_str(&t, ":bprev") || chars_eq_str(&t, ":bp") {
                if self.tabs.len() > 0 {
                    self.tab_previous();
                }
                CommandAction::Idle
            } else if chars_eq_str(&t, ":bd") {
                if self.tabs.len() > 0 {
                    self.close_current_tab();
                }
                CommandAction::Idle
            } else if chars_eq_str(&t, ":topen") {
                self.options.type_inspector = true;
                CommandAction::Idle
            } else if chars_eq_str(&t, ":tclose") {
                self.options.type_inspector = false;
                CommandAction::Idle
            } else if chars_eq_str(&t, ":ttoggle") {
                self.options.type_inspector = !self.options.type_inspector;
                CommandAction::Idle
            } else if chars_eq_str(&t, ":help") {
                if self.tabs.len() == 1 {
                    let solitary_title = match &self.tabs[0] {
                        Tab::Title => true,
                        _ => false,
                    };
                    if solitary_title {
                        self.tabs.remove(0);
                    }
                }
                self.tabs.push(Tab::Help);
                self.tabs_index = self.tabs.len() - 1;
                proof {
                    assert(final(self).tabs@ =~= open_base(old(self).tabs@).push(Tab::Help));
                    let base = open_base(old(self).tabs@);
                    assert forall|i: int|
                        0 <= i < final(self).tabs@.len() implies (
                    #[trigger] final(self).tabs@[i]).wf() by {
                        if i < base.len() {
                            assert(final(self).tabs@[i] == base[i]);
                            if !(old(self).tabs@.len() == 1 && old(self).tabs@[0] is Title) {
                                assert(base[i] == old(self).tabs@[i]);
                            }
                        }
                    }
                }
                CommandAction::Idle
            } else if chars_start_with(&t, ":b") {
                let digits = subvec(&t, 2, t.len());
                assert(digits@ =~= trimmed(cmd).skip(2));
                match parse_dec_usize(&digits) {
                    Some(num) => {
                        if num > 0 {
                            self.goto_tab(num - 1);
                        }
                    },
                    None => {},
                }
                CommandAction::Idle
            } else if n >= 2 && cmd_chars[0] == ':' && cmd_chars[1] == '!' {
                self.mode = Mode::ShellEscape;
                let remainder = subvec(&cmd_chars, 2, n);
                assert(remainder@ =~= cmd.skip(2));
                self.command = string_from_chars(&remainder);
                CommandAction::Idle
            } else if n >= 1 && cmd_chars[0] == ':' {
                if find_flag(&cmd_chars, 'q') {
                    self.mode = Mode::Quit;
                }
                if find_flag(&cmd_chars, 'w') && self.tabs.len() > 0 {
                    match self.write(None) {
                        Some(out) => CommandAction::WriteTo(out.0, out.1),
                        None => CommandAction::Idle,
                    }
                } else {
                    CommandAction::Idle
                }
            } else {
                CommandAction::Idle
            }
        }
    }
}

/// Applies the driver's answer to an [`CommandAction::OpenPath`] action:
/// the freshly read bytes (empty on a failed read) become a new buffer tab
/// and the session switches to it.
pub fn apply_open(app: &mut App, path: &str, data: Vec<u8>)
    requires
        old(app).wf(),
        data@.len() + 16 <= usize::MAX,
    ensures
        final(app).wf(),
        final(app).mode == old(app).mode,
        final(app).command == old(app).command,
        final(app).line_count == old(app).line_count,
        final(app).options == old(app).options,
        final(app).tabs@.drop_last() == open_base(old(app).tabs@),
        final(app).tabs@.len() == open_base(old(app).tabs@).len() + 1,
        final(app).tabs@.last() is File,
        final(app).tabs@.last() matches Tab::File(f) ==> {
            &&& f.name@ == crate::file::display_name_spec(path@)
            &&& f.path@ == path@
            &&& f.data@ == data@
            &&& f.cursor.pos == (0usize, 0usize)
            &&& f.scroll_y == 16
        },
        final(app).tabs_index as int == final(app).tabs@.len() - 1,
{
    app.open(path, data);
    let n = app.tabs.len();
    app.tabs_index = n - 1;
}

} // verus!
