//! Tabs: the closed set of things an editing slot can hold.

use vstd::prelude::*;

use crate::file::File;

verus! {

/// One editing context: a static title screen, an open buffer, or the
/// static help screen.
pub enum Tab {
    Title,
    File(File),
    Help,
}

impl Tab {
    /// A file tab must hold a well-formed buffer.
    pub open spec fn wf(&self) -> bool {
        match self {
            Tab::File(f) => f.wf(),
            _ => true,
        }
    }

    /// The short label the tab bar shows.
    pub open spec fn spec_title(&self) -> Seq<char> {
        match self {
            Tab::Title => "title"@,
            Tab::Help => "help"@,
            Tab::File(f) => f.name@,
        }
    }

    /// The long label the view's border shows: a buffer's full path.
    pub open spec fn spec_long_title(&self) -> Seq<char> {
        match self {
            Tab::File(f) => f.path@,
            _ => self.spec_title(),
        }
    }

    pub fn title(&self) -> (r: &str)
        ensures
            r@ == self.spec_title(),
    {
        match self {
            Tab::Title => "title",
            Tab::Help => "help",
            Tab::File(f) => f.name.as_str(),
        }
    }

    pub fn long_title(&self) -> (r: &str)
        ensures
            r@ == self.spec_long_title(),
    {
        match self {
            Tab::File(f) => f.path.as_str(),
            _ => self.title(),
        }
    }
}

} // verus!
