//! Keystroke handling, one function per input mode.
//!
//! The driver translates terminal events into [`Key`] values and calls the
//! handler of the current mode; everything the keystroke decides happens
//! here. Cursor motion applies to the active buffer tab and is a no-op on
//! the title and help tabs.

use vstd::prelude::*;

use crate::app::App;
use crate::command::{dispatch_post, CommandAction};
use crate::cursor::{
    cursor_in_bounds, down_pos, goto_pos, left_pos, lemma_down_in_bounds, lemma_goto_roundtrip,
    lemma_left_in_bounds, lemma_right_in_bounds, lemma_up_in_bounds, next_word_loc, nib_loc,
    prev_word_loc, right_pos, up_pos, HexCursor,
};
use crate::file::File;
use crate::modes::Mode;
use crate::numparse::{digit_val_radix, digit_value, is_digit_radix};
use crate::tabs::Tab;
use crate::text::{pop_char, push_char};

verus! {

/// One keystroke, already decoded by the driver.
pub enum Key {
    Up,
    Down,
    Left,
    Right,
    PageUp,
    PageDown,
    Esc,
    Backspace,
    Char(char),
    Other,
}

/// How many rows one page keystroke moves.
pub const PAGE_ROWS: usize = 34;

/// The cursor motions the navigation keys produce.
pub enum MoveKind {
    MoveUp,
    MoveDown,
    MoveLeft,
    MoveRight,
    PageUpMove,
    PageDownMove,
    WordNext,
    WordPrev,
    GotoEnd,
}

/// `k` upward steps.
pub open spec fn iter_up(p: (int, int), k: nat) -> (int, int)
    decreases k,
{
    if k == 0 {
        p
    } else {
        up_pos(iter_up(p, (k - 1) as nat))
    }
}

/// `k` downward steps against a buffer of `filesize` bytes.
pub open spec fn iter_down(p: (int, int), filesize: int, k: nat) -> (int, int)
    decreases k,
{
    if k == 0 {
        p
    } else {
        down_pos(iter_down(p, filesize, (k - 1) as nat), filesize)
    }
}

/// Where a motion puts the cursor of buffer `f`.
pub open spec fn move_target(m: MoveKind, f: File) -> (int, int) {
    let p = f.cursor.pos_model();
    let fs = f.data@.len() as int;
    match m {
        MoveKind::MoveUp => up_pos(p),
        MoveKind::MoveDown => down_pos(p, fs),
        MoveKind::MoveLeft => left_pos(p),
        MoveKind::MoveRight => right_pos(p, fs),
        MoveKind::PageUpMove => iter_up(p, PAGE_ROWS as nat),
        MoveKind::PageDownMove => iter_down(p, fs, PAGE_ROWS as nat),
        MoveKind::WordNext => if fs >= 1 {
            goto_pos(next_word_loc(nib_loc(p), fs))
        } else {
            p
        },
        MoveKind::WordPrev => goto_pos(prev_word_loc(nib_loc(p))),
        MoveKind::GotoEnd => goto_pos(
            if fs > 0 {
                fs - 1
            } else {
                0
            },
        ),
    }
}

/// `f` with its cursor at position `p`.
pub open spec fn file_with_pos(f: File, p: (int, int)) -> File {
    File { cursor: HexCursor { pos: (p.0 as usize, p.1 as usize) }, ..f }
}

/// The tab list after motion `m`: the active buffer's cursor moves;
/// without an active buffer nothing changes.
pub open spec fn moved_by(tabs: Seq<Tab>, idx: int, post: Seq<Tab>, m: MoveKind) -> bool {
    if 0 <= idx < tabs.len() && tabs[idx] is File {
        tabs[idx] matches Tab::File(f) && post == tabs.update(
            idx,
            Tab::File(file_with_pos(f, move_target(m, f))),
        )
    } else {
        post == tabs
    }
}

/// What a keystroke means in the default (navigation) mode.
pub enum DefaultAct {
    EnterCommand,
    EnterSearch,
    EnterInsert,
    EnterReplace,
    Move(MoveKind),
    NoAct,
}

/// The default mode's key table.
pub open spec fn classify_default_key(key: Key) -> DefaultAct {
    match key {
        Key::Char(c) => if c == ':' {
            DefaultAct::EnterCommand
        } else if c == '/' {
            DefaultAct::EnterSearch
        } else if c == 'i' {
            DefaultAct::EnterInsert
        } else if c == 'R' || c == 'r' {
            DefaultAct::EnterReplace
        } else if c == 'k' {
            DefaultAct::Move(MoveKind::MoveUp)
        } else if c == 'j' {
            DefaultAct::Move(MoveKind::MoveDown)
        } else if c == 'h' {
            DefaultAct::Move(MoveKind::MoveLeft)
        } else if c == 'l' {
            DefaultAct::Move(MoveKind::MoveRight)
        } else if c == 'w' {
            DefaultAct::Move(MoveKind::WordNext)
        } else if c == 'b' {
            DefaultAct::Move(MoveKind::WordPrev)
        } else if c == 'G' {
            DefaultAct::Move(MoveKind::GotoEnd)
        } else {
            DefaultAct::NoAct
        },
        Key::Up => DefaultAct::Move(MoveKind::MoveUp),
        Key::Down => DefaultAct::Move(MoveKind::MoveDown),
        Key::Left => DefaultAct::Move(MoveKind::MoveLeft),
        Key::Right => DefaultAct::Move(MoveKind::MoveRight),
        Key::PageUp => DefaultAct::Move(MoveKind::PageUpMove),
        Key::PageDown => DefaultAct::Move(MoveKind::PageDownMove),
        _ => DefaultAct::NoAct,
    }
}

/// The motion keys shared by the default and write modes (arrows and page
/// keys only in write mode).
pub open spec fn classify_write_key(key: Key) -> DefaultAct {
    match key {
        Key::Esc => DefaultAct::NoAct,
        Key::Up => DefaultAct::Move(MoveKind::MoveUp),
        Key::Down => DefaultAct::Move(MoveKind::MoveDown),
        Key::Left => DefaultAct::Move(MoveKind::MoveLeft),
        Key::Right => DefaultAct::Move(MoveKind::MoveRight),
        Key::PageUp => DefaultAct::Move(MoveKind::PageUpMove),
        Key::PageDown => DefaultAct::Move(MoveKind::PageDownMove),
        _ => DefaultAct::NoAct,
    }
}

impl App {
    /// Applies motion `m` to the active buffer's cursor; a no-op when the
    /// active tab holds no buffer.
    fn apply_move(&mut self, m: MoveKind)
        requires
            old(self).wf(),
        ensures
            final(self).wf(),
            final(self).mode == old(self).mode,
            final(self).command == old(self).command,
            final(self).tabs_index == old(self).tabs_index,
            final(self).line_count == old(self).line_count,
            final(self).options == old(self).options,
            moved_by(old(self).tabs@, old(self).tabs_index as int, final(self).tabs@, m),
    {
        let idx = self.tabs_index;
        if idx < self.tabs.len() {
            match &mut self.tabs[idx] {
                Tab::File(f) => {
                    let ghost orig = *f;
                    let filesize = f.data.len();
                    match m {
                        MoveKind::MoveUp => {
                            f.cursor.up();
                            proof {
                                lemma_up_in_bounds(orig.cursor.pos_model(), filesize as int);
                            }
                        },
                        MoveKind::MoveDown => {
                            f.cursor.down(filesize);
                            proof {
                                lemma_down_in_bounds(orig.cursor.pos_model(), filesize as int);
                            }
                        },
                        MoveKind::MoveLeft => {
                            f.cursor.left();
                            proof {
                                lemma_left_in_bounds(orig.cursor.pos_model(), filesize as int);
                            }
                        },
                        MoveKind::MoveRight => {
                            f.cursor.right(filesize);
                            proof {
                                lemma_right_in_bounds(orig.cursor.pos_model(), filesize as int);
                            }
                        },
                        MoveKind::PageUpMove => {
                            let mut k: usize = 0;
                            while k < PAGE_ROWS
                                invariant
                                    k <= PAGE_ROWS,
                                    f.cursor.pos_model() == iter_up(
                                        orig.cursor.pos_model(),
                                        k as nat,
                                    ),
                                    cursor_in_bounds(f.cursor.pos_model(), orig.data@.len() as int),
                                    f.name == orig.name,
                                    f.path == orig.path,
                                    f.data == orig.data,
                                    f.scroll_y == orig.scroll_y,
                                    orig.wf(),
                                decreases PAGE_ROWS - k,
                            {
                                proof {
                                    lemma_up_in_bounds(f.cursor.pos_model(), orig.data@.len() as int);
                                }
                                f.cursor.up();
                                k = k + 1;
                            }
                        },
                        MoveKind::PageDownMove => {
                            let mut k: usize = 0;
                            while k < PAGE_ROWS
                                invariant
                                    k <= PAGE_ROWS,
                                    filesize == orig.data@.len(),
                                    f.cursor.pos_model() == iter_down(
                                        orig.cursor.pos_model(),
                                        filesize as int,
                                        k as nat,
                                    ),
                                    cursor_in_bounds(f.cursor.pos_model(), filesize as int),
                                    f.name == orig.name,
                                    f.path == orig.path,
                                    f.data == orig.data,
                                    f.scroll_y == orig.scroll_y,
                                    orig.wf(),
                                decreases PAGE_ROWS - k,
                            {
                                proof {
                                    lemma_down_in_bounds(f.cursor.pos_model(), filesize as int);
                                }
                                f.cursor.down(filesize);
                                k = k + 1;
                            }
                        },
                        MoveKind::WordNext => {
                            if filesize >= 1 {
                                f.cursor.next_word(filesize);
                                proof {
                                    lemma_goto_roundtrip(
                                        next_word_loc(
                                            orig.cursor.spec_loc(),
                                            filesize as int,
                                        ),
                                    );
                                }
                            }
                        },
                        MoveKind::WordPrev => {
                            f.cursor.prev_word();
                            proof {
                                lemma_goto_roundtrip(prev_word_loc(orig.cursor.spec_loc()));
                            }
                        },
                        MoveKind::GotoEnd => {
                            let target: usize = if filesize > 0 {
                                filesize - 1
                            } else {
                                0
                            };
                            f.cursor.goto(target);
                            proof {
                                lemma_goto_roundtrip(target as int);
                            }
                        },
                    }
                },
                _ => {},
            }
            proof {
                if !(old(self).tabs@[idx as int] is File) {
                    assert(self.tabs@ =~= old(self).tabs@);
                }
            }
        }
    }

    /// One keystroke in the default mode: `:` and `/` begin a command
    /// line, `i`/`r`/`R` switch modes, the vim motion keys and arrows move
    /// the active buffer's cursor.
    pub fn default_mode_key(&mut self, key: Key)
        requires
            old(self).wf(),
        ensures
            final(self).wf(),
            final(self).tabs_index == old(self).tabs_index,
            final(self).line_count == old(self).line_count,
            final(self).options == old(self).options,
            ({
                let pre = *old(self);
                let post = *final(self);
                match classify_default_key(key) {
                    DefaultAct::EnterCommand => post.mode == Mode::Command && post.command@
                        == ":"@ && post.tabs == pre.tabs,
                    DefaultAct::EnterSearch => post.mode == Mode::Command && post.command@ == "/"@
                        && post.tabs == pre.tabs,
                    DefaultAct::EnterInsert => post.mode == Mode::Insert && post.command
                        == pre.command && post.tabs == pre.tabs,
                    DefaultAct::EnterReplace => post.mode == Mode::Replace && post.command
                        == pre.command && post.tabs == pre.tabs,
                    DefaultAct::Move(m) => post.mode == pre.mode && post.command == pre.command
                        && moved_by(pre.tabs@, pre.tabs_index as int, post.tabs@, m),
                    DefaultAct::NoAct => post.mode == pre.mode && post.command == pre.command
                        && post.tabs == pre.tabs,
                }
            }),
    {
        match key {
            Key::Char(c) => {
                if c == ':' {
                    self.mode = Mode::Command;
                    self.command = ":".to_owned();
                } else if c == '/' {
                    self.mode = Mode::Command;
                    self.command = "/".to_owned();
                } else if c == 'i' {
                    self.mode = Mode::Insert;
                } else if c == 'R' || c == 'r' {
                    self.mode = Mode::Replace;
                } else if c == 'k' {
                    self.apply_move(MoveKind::MoveUp);
                } else if c == 'j' {
                    self.apply_move(MoveKind::MoveDown);
                } else if c == 'h' {
                    self.apply_move(MoveKind::MoveLeft);
                } else if c == 'l' {
                    self.apply_move(MoveKind::MoveRight);
                } else if c == 'w' {
                    self.apply_move(MoveKind::WordNext);
                } else if c == 'b' {
                    self.apply_move(MoveKind::WordPrev);
                } else if c == 'G' {
                    self.apply_move(MoveKind::GotoEnd);
                }
            },
            Key::Up => self.apply_move(MoveKind::MoveUp),
            Key::Down => self.apply_move(MoveKind::MoveDown),
            Key::Left => self.apply_move(MoveKind::MoveLeft),
            Key::Right => self.apply_move(MoveKind::MoveRight),
            Key::PageUp => self.apply_move(MoveKind::PageUpMove),
            Key::PageDown => self.apply_move(MoveKind::PageDownMove),
            _ => {},
        }
    }

    /// One keystroke while a command line is pending: printable characters
    /// accumulate, backspace erases (erasing the leading `:`/`/` leaves
    /// command entry), escape abandons the line, and the newline submits
    /// it through the interpreter. After a submission that leaves a
    /// default-mode session with no tabs, the session falls back to the
    /// title screen.
    pub fn command_mode_key(&mut self, key: Key) -> (act: CommandAction)
        requires
            old(self).wf(),
        ensures
            final(self).wf(),
            final(self).tabs_index == old(self).tabs_index || key == Key::Char('\n'),
            final(self).line_count == old(self).line_count,
            ({
                let pre = *old(self);
                let post = *final(self);
                match key {
                    Key::Esc => post == App { mode: Mode::Default, ..pre } && act is Idle,
                    Key::Backspace => {
                        &&& act is Idle
                        &&& post.tabs == pre.tabs
                        &&& post.options == pre.options
                        &&& if pre.command@.len() == 0 {
                            post.command@ == pre.command@ && post.mode == (
                            if pre.tabs@.len() == 0 {
                                Mode::Title
                            } else {
                                Mode::Default
                            })
                        } else {
                            post.command@ == pre.command@.drop_last() && post.mode == (
                            if pre.command@.last() == ':' && pre.command@.len() == 1 {
                                if pre.tabs@.len() == 0 {
                                    Mode::Title
                                } else {
                                    Mode::Default
                                }
                            } else {
                                pre.mode
                            })
                        }
                    },
                    Key::Char(c) => {
                        if c == '\n' {
                            exists|m: Mode|
                                {
                                    &&& #[trigger] dispatch_post(
                                        App { mode: Mode::Default, ..pre },
                                        App { mode: m, ..post },
                                        act,
                                    )
                                    &&& post.mode == (if m == Mode::Default && post.tabs@.len()
                                        == 0 {
                                        Mode::Title
                                    } else {
                                        m
                                    })
                                }
                        } else {
                            act is Idle && post == App {
                                command: post.command,
                                ..pre
                            } && post.command@ == pre.command@.push(c)
                        }
                    },
                    _ => post == pre && act is Idle,
                }
            }),
    {
        match key {
            Key::Esc => {
                self.mode = Mode::Default;
                CommandAction::Idle
            },
            Key::Backspace => {
                let popped = pop_char(&mut self.command);
                match popped {
                    Some(c) => {
                        if c == ':' && self.command.as_str().is_empty() {
                            if self.tabs.is_empty() {
                                self.mode = Mode::Title;
                            } else {
                                self.mode = Mode::Default;
                            }
                        }
                    },
                    None => {
                        if self.tabs.is_empty() {
                            self.mode = Mode::Title;
                        } else {
                            self.mode = Mode::Default;
                        }
                    },
                }
                CommandAction::Idle
            },
            Key::Char(c) => {
                if c == '\n' {
                    self.mode = Mode::Default;
                    let act = self.handle_command();
                    let ghost mid = *self;
                    let default_now = match self.mode {
                        Mode::Default => true,
                        _ => false,
                    };
                    if default_now && self.tabs.is_empty() {
                        self.mode = Mode::Title;
                    }
                    proof {
                        assert(App { mode: Mode::Default, ..*old(self) } == App {
                            mode: Mode::Default,
                            command: old(self).command,
                            tabs: old(self).tabs,
                            tabs_index: old(self).tabs_index,
                            line_count: old(self).line_count,
                            options: old(self).options,
                        });
                        assert(App { mode: mid.mode, ..*final(self) } == mid);
                    }
                    act
                } else {
                    push_char(&mut self.command, c);
                    CommandAction::Idle
                }
            },
            _ => CommandAction::Idle,
        }
    }

    /// One keystroke in Insert or Replace mode: escape leaves, arrows and
    /// page keys move, and a hex digit edits. In Replace mode the digit
    /// overwrites the nibble under the cursor and steps right; a cursor
    /// with no byte under it (an empty buffer) takes no edit, and Insert
    /// mode edits are not implemented, so both are no-ops.
    pub fn write_mode_key(&mut self, key: Key)
        requires
            old(self).wf(),
        ensures
            final(self).wf(),
            final(self).mode == (if key == Key::Esc {
                Mode::Default
            } else {
                old(self).mode
            }),
            final(self).command == old(self).command,
            final(self).tabs_index == old(self).tabs_index,
            final(self).line_count == old(self).line_count,
            final(self).options == old(self).options,
            ({
                let pre = *old(self);
                let post = *final(self);
                match classify_write_key(key) {
                    DefaultAct::Move(m) => moved_by(
                        pre.tabs@,
                        pre.tabs_index as int,
                        post.tabs@,
                        m,
                    ),
                    _ => match key {
                        Key::Char(c) => {
                            if is_digit_radix(c, 16) && pre.mode == Mode::Replace {
                                replace_applied(
                                    pre.tabs@,
                                    pre.tabs_index as int,
                                    digit_val_radix(c, 16) as u8,
                                    post.tabs@,
                                )
                            } else {
                                post.tabs == pre.tabs
                            }
                        },
                        _ => post.tabs == pre.tabs,
                    },
                }
            }),
    {
        match key {
            Key::Esc => {
                self.mode = Mode::Default;
            },
            Key::Up => self.apply_move(MoveKind::MoveUp),
            Key::Down => self.apply_move(MoveKind::MoveDown),
            Key::Left => self.apply_move(MoveKind::MoveLeft),
            Key::Right => self.apply_move(MoveKind::MoveRight),
            Key::PageUp => self.apply_move(MoveKind::PageUpMove),
            Key::PageDown => self.apply_move(MoveKind::PageDownMove),
            Key::Char(c) => {
                match digit_value(c, 16) {
                    Some(digit) => {
                        let replace_now = match self.mode {
                            Mode::Replace => true,
                            _ => false,
                        };
                        if replace_now {
                            let idx = self.tabs_index;
                            if idx < self.tabs.len() {
                                match &mut self.tabs[idx] {
                                    Tab::File(f) => {
                                        f.replace_at_cursor(digit);
                                    },
                                    _ => {},
                                }
                                proof {
                                    if !(old(self).tabs@[idx as int] is File) {
                                        assert(self.tabs@ =~= old(self).tabs@);
                                    }
                                }
                            }
                        }
                    },
                    None => {},
                }
            },
            _ => {},
        }
    }

    /// One keystroke on the title screen: only `:` does anything, and it
    /// begins a command line in title-command mode.
    pub fn title_mode_key(&mut self, key: Key)
        requires
            old(self).wf(),
        ensures
            final(self).wf(),
            final(self).tabs == old(self).tabs,
            final(self).tabs_index == old(self).tabs_index,
            final(self).line_count == old(self).line_count,
            final(self).options == old(self).options,
            key == Key::Char(':') ==> final(self).mode == Mode::TitleCommand && final(self).command@
                == ":"@,
            key != Key::Char(':') ==> final(self).mode == old(self).mode && final(self).command
                == old(self).command,
    {
        match key {
            Key::Char(c) => {
                if c == ':' {
                    self.mode = Mode::TitleCommand;
                    self.command = ":".to_owned();
                }
            },
            _ => {},
        }
    }
}

/// `g` is `f` after a Replace-mode digit: the nibble under the cursor
/// rewritten and the cursor stepped right; untouched when no byte sits
/// under the cursor.
pub open spec fn file_replaced(f: File, digit: u8, g: File) -> bool {
    let l = f.cursor.spec_loc();
    &&& g.name == f.name
    &&& g.path == f.path
    &&& g.scroll_y == f.scroll_y
    &&& if l < f.data@.len() {
        &&& g.data@ == f.data@.update(
            l,
            File::replaced_byte(f.data@[l], digit, f.cursor.pos.0 % 2 == 0),
        )
        &&& g.cursor.pos_model() == right_pos(f.cursor.pos_model(), f.data@.len() as int)
    } else {
        g == f
    }
}

/// The tab list after a Replace-mode digit lands on the active buffer.
pub open spec fn replace_applied(tabs: Seq<Tab>, idx: int, digit: u8, post: Seq<Tab>) -> bool {
    if 0 <= idx < tabs.len() && tabs[idx] is File {
        &&& post.len() == tabs.len()
        &&& (forall|j: int| 0 <= j < tabs.len() && j != idx ==> post[j] == tabs[j])
        &&& post[idx] is File
        &&& (tabs[idx] matches Tab::File(f) ==> post[idx] matches Tab::File(g) ==> file_replaced(
            f,
            digit,
            g,
        ))
    } else {
        post == tabs
    }
}

} // verus!
