//! The editor session: the ordered tabs, the active tab, the mode, the
//! pending command line and the display options.

use vstd::prelude::*;

use crate::cursor::HexCursor;
use crate::file::{display_name_chars, display_name_spec, File};
use crate::modes::Mode;
use crate::tabs::Tab;
use crate::text::{string_chars, string_from_chars};

verus! {

/// Global display options.
pub struct AppOptions {
    pub big_endian: bool,
    pub type_inspector: bool,
}

impl AppOptions {
    /// Defaults: little-endian decoding, inspector visible.
    pub fn new() -> (r: AppOptions)
        ensures
            !r.big_endian,
            r.type_inspector,
    {
        AppOptions { big_endian: false, type_inspector: true }
    }
}

/// The editor session.
pub struct App {
    pub tabs: Vec<Tab>,
    pub mode: Mode,
    pub command: String,
    pub tabs_index: usize,
    pub line_count: usize,
    pub options: AppOptions,
}

/// `post` is `pre` with at most the active-tab index changed.
pub open spec fn same_but_index(pre: App, post: App) -> bool {
    &&& post.tabs == pre.tabs
    &&& post.mode == pre.mode
    &&& post.command == pre.command
    &&& post.line_count == pre.line_count
    &&& post.options == pre.options
}

impl App {
    /// Session consistency: the active index addresses a tab whenever any
    /// tab exists, and every buffer is well formed.
    pub open spec fn wf(&self) -> bool {
        &&& (self.tabs@.len() > 0 ==> self.tabs_index < self.tabs@.len())
        &&& (self.tabs@.len() == 0 ==> self.tabs_index == 0)
        &&& forall|i: int| 0 <= i < self.tabs@.len() ==> (#[trigger] self.tabs@[i]).wf()
    }

    /// A fresh session: no tabs, title mode, empty command line.
    pub fn new() -> (r: App)
        ensures
            r.wf(),
            r.tabs@.len() == 0,
            r.mode == Mode::Title,
            r.command@.len() == 0,
            r.tabs_index == 0,
            r.line_count == 0,
            !r.options.big_endian,
            r.options.type_inspector,
    {
        App {
            tabs: Vec::new(),
            mode: Mode::Title,
            command: String::new(),
            tabs_index: 0,
            line_count: 0,
            options: AppOptions::new(),
        }
    }

    /// Opens `data` as a new buffer tab named after `filename`'s final
    /// path segment. A solitary placeholder title tab is replaced; the new
    /// tab goes last. The driver supplies `data` (empty when the path
    /// could not be read: open-or-create).
    pub fn open(&mut self, filename: &str, data: Vec<u8>)
        requires
            old(self).wf(),
            data@.len() + 16 <= usize::MAX,
        ensures
            final(self).wf(),
            final(self).mode == old(self).mode,
            final(self).command == old(self).command,
            final(self).tabs_index == old(self).tabs_index,
            final(self).line_count == old(self).line_count,
            final(self).options == old(self).options,
            final(self).tabs@.drop_last() == open_base(old(self).tabs@),
            final(self).tabs@.len() == open_base(old(self).tabs@).len() + 1,
            final(self).tabs@.last() is File,
            final(self).tabs@.last() matches Tab::File(f) ==> {
                &&& f.name@ == display_name_spec(filename@)
                &&& f.path@ == filename@
                &&& f.data@ == data@
                &&& f.cursor.pos == (0usize, 0usize)
                &&& f.scroll_y == 16
            },
    {
        let name_chars = display_name_chars(&string_chars(filename));
        let file = File {
            name: string_from_chars(&name_chars),
            path: filename.to_owned(),
            cursor: HexCursor::new((0, 0)),
            data,
            scroll_y: 0x10,
        };
        if self.tabs.len() == 1 {
            let solitary_title = match &self.tabs[0] {
                Tab::Title => true,
                _ => false,
            };
            if solitary_title {
                self.tabs.remove(0);
            }
        }
        self.tabs.push(Tab::File(file));
        proof {
            let base = open_base(old(self).tabs@);
            assert(final(self).tabs@.drop_last() =~= base);
            assert forall|i: int|
                0 <= i < final(self).tabs@.len() implies (#[trigger] final(self).tabs@[i]).wf() by {
                if i < base.len() {
                    assert(final(self).tabs@[i] == base[i]);
                    if old(self).tabs@.len() == 1 && old(self).tabs@[0] is Title {
                    } else {
                        assert(base[i] == old(self).tabs@[i]);
                    }
                }
            }
        }
    }

    /// What a save must write: the override path or the buffer's own, and
    /// the buffer's bytes. `None` when the active tab holds no buffer.
    /// The driver performs the write itself.
    pub fn write(&self, filename: Option<&str>) -> (r: Option<(String, Vec<u8>)>)
        requires
            self.wf(),
            self.tabs@.len() > 0,
        ensures
            r is Some <==> self.tabs@[self.tabs_index as int] is File,
            r matches Some(out) ==> (self.tabs@[self.tabs_index as int] matches Tab::File(f)
                && out.0@ == (match filename {
                Some(p) => p@,
                None => f.path@,
            }) && out.1@ == f.data@),
    {
        match &self.tabs[self.tabs_index] {
            Tab::File(f) => {
                let path: String = match filename {
                    Some(p) => p.to_owned(),
                    None => f.path.clone(),
                };
                let bytes = copy_bytes(&f.data);
                Some((path, bytes))
            },
            _ => None,
        }
    }

    /// Absolute tab jump; an out-of-range index is silently ignored.
    pub fn goto_tab(&mut self, idx: usize)
        ensures
            same_but_index(*old(self), *final(self)),
            idx < old(self).tabs@.len() ==> final(self).tabs_index == idx,
            idx >= old(self).tabs@.len() ==> final(self).tabs_index == old(self).tabs_index,
    {
        if idx < self.tabs.len() {
            self.tabs_index = idx;
        }
    }

    /// Cyclic step to the next tab.
    pub fn tab_next(&mut self)
        requires
            old(self).wf(),
            old(self).tabs@.len() > 0,
        ensures
            same_but_index(*old(self), *final(self)),
            final(self).tabs_index as int == (old(self).tabs_index + 1) as int % (
            old(self).tabs@.len() as int),
    {
        let n = self.tabs.len();
        self.tabs_index = (self.tabs_index + 1) % n;
    }

    /// Cyclic step to the previous tab, wrapping from the first to the
    /// last.
    pub fn tab_previous(&mut self)
        requires
            old(self).tabs@.len() > 0,
        ensures
            same_but_index(*old(self), *final(self)),
            final(self).tabs_index as int == if old(self).tabs_index > 0 {
                old(self).tabs_index - 1
            } else {
                old(self).tabs@.len() - 1
            },
    {
        if self.tabs_index > 0 {
            self.tabs_index = self.tabs_index - 1;
        } else {
            self.tabs_index = self.tabs.len() - 1;
        }
    }

    /// The tab bar labels, one per tab, in order.
    pub fn tab_titles(&self) -> (r: Vec<&str>)
        ensures
            r@.len() == self.tabs@.len(),
            forall|i: int| 0 <= i < r@.len() ==> #[trigger] r@[i]@ == self.tabs@[i].spec_title(),
    {
        let mut r: Vec<&str> = Vec::new();
        let mut i: usize = 0;
        while i < self.tabs.len()
            invariant
                i <= self.tabs@.len(),
                r@.len() == i,
                forall|j: int| 0 <= j < i ==> #[trigger] r@[j]@ == self.tabs@[j].spec_title(),
            decreases self.tabs@.len() - i,
        {
            r.push(self.tabs[i].title());
            i = i + 1;
        }
        r
    }

    /// The active tab.
    pub fn current_tab(&self) -> (r: &Tab)
        requires
            self.wf(),
            self.tabs@.len() > 0,
        ensures
            r == self.tabs@[self.tabs_index as int],
    {
        &self.tabs[self.tabs_index]
    }

    /// Removes the active tab. When the removed index was the last, the
    /// active index steps back by one; when the last tab goes, the session
    /// enters `Quit` — the index never dangles.
    pub fn close_current_tab(&mut self)
        requires
            old(self).wf(),
            old(self).tabs@.len() > 0,
        ensures
            final(self).wf(),
            final(self).command == old(self).command,
            final(self).line_count == old(self).line_count,
            final(self).options == old(self).options,
            final(self).tabs@ == old(self).tabs@.remove(old(self).tabs_index as int),
            final(self).tabs@.len() == 0 ==> final(self).mode == Mode::Quit
                && final(self).tabs_index == 0,
            final(self).tabs@.len() > 0 ==> final(self).mode == old(self).mode
                && final(self).tabs_index == (if old(self).tabs_index == final(self).tabs@.len() {
                old(self).tabs_index - 1
            } else {
                old(self).tabs_index as int
            }),
    {
        self.tabs.remove(self.tabs_index);
        if self.tabs_index == self.tabs.len() && self.tabs_index > 0 {
            self.tabs_index = self.tabs_index - 1;
        }
        if self.tabs.is_empty() {
            self.mode = Mode::Quit;
            self.tabs_index = 0;
        }
        proof {
            assert forall|i: int|
                0 <= i < final(self).tabs@.len() implies (#[trigger] final(self).tabs@[i]).wf() by {
                if i < old(self).tabs_index {
                    assert(final(self).tabs@[i] == old(self).tabs@[i]);
                } else {
                    assert(final(self).tabs@[i] == old(self).tabs@[i + 1]);
                }
            }
        }
    }
}

/// The tab list an open starts from: a solitary placeholder title tab is
/// dropped the instant real content arrives.
pub open spec fn open_base(tabs: Seq<Tab>) -> Seq<Tab> {
    if tabs.len() == 1 && tabs[0] is Title {
        Seq::<Tab>::empty()
    } else {
        tabs
    }
}

/// A fresh copy of a byte vector.
pub fn copy_bytes(v: &Vec<u8>) -> (r: Vec<u8>)
    ensures
        r@ == v@,
{
    let mut r: Vec<u8> = Vec::new();
    let mut i: usize = 0;
    while i < v.len()
        invariant
            i <= v@.len(),
            r@ == v@.subrange(0, i as int),
        decreases v@.len() - i,
    {
        r.push(v[i]);
        assert(r@ =~= v@.subrange(0, i as int + 1));
        i = i + 1;
    }
    assert(r@ =~= v@);
    r
}

} // verus!
