//! How packages are removed and how they are listed.

use crate::style::{Color, C_ACCENT, C_DANGER, C_SUCCESS, C_WARN};
use vstd::prelude::*;

verus! {

/// The options of a transaction.
#[derive(Clone, Copy, PartialEq, Eq, Debug, Structural)]
pub struct TransFlags {
    /// Also remove dependencies that nothing else needs.
    pub recurse: bool,
    /// Keep no copies of configuration files.
    pub no_save: bool,
    /// Ignore dependencies.
    pub no_deps: bool,
}

/// How packages are removed.
#[derive(Clone, Copy, PartialEq, Eq, Debug, Structural)]
pub enum Mode {
    /// `-R`
    Simple,
    /// `-Rs`
    Recursive,
    /// `-Rns`
    Full,
    /// `-Rdd`
    Force,
}

impl Mode {
    /// The letters of the option.
    pub open spec fn label_text(self) -> Seq<char> {
        match self {
            Mode::Simple => "R"@,
            Mode::Recursive => "Rs"@,
            Mode::Full => "Rns"@,
            Mode::Force => "Rdd ⚠"@,
        }
    }

    /// The letters of the option.
    pub fn label(self) -> (r: &'static str)
        ensures
            r@ == self.label_text(),
    {
        match self {
            Mode::Simple => "R",
            Mode::Recursive => "Rs",
            Mode::Full => "Rns",
            Mode::Force => "Rdd ⚠",
        }
    }

    /// What the mode does.
    pub open spec fn hint_text(self) -> Seq<char> {
        match self {
            Mode::Simple => "Remove only"@,
            Mode::Recursive => "Remove + unused deps"@,
            Mode::Full => "Remove + deps + configs"@,
            Mode::Force => "Force (ignore deps!)"@,
        }
    }

    /// What the mode does.
    pub fn hint(self) -> (r: &'static str)
        ensures
            r@ == self.hint_text(),
    {
        match self {
            Mode::Simple => "Remove only",
            Mode::Recursive => "Remove + unused deps",
            Mode::Full => "Remove + deps + configs",
            Mode::Force => "Force (ignore deps!)",
        }
    }

    /// The colour in which the mode is shown.
    #[verifier::allow_in_spec]
    pub fn color(self) -> Color
        returns
            (match self {
                Mode::Simple => C_SUCCESS,
                Mode::Recursive => C_ACCENT,
                Mode::Full => C_WARN,
                Mode::Force => C_DANGER,
            }),
    {
        match self {
            Mode::Simple => C_SUCCESS,
            Mode::Recursive => C_ACCENT,
            Mode::Full => C_WARN,
            Mode::Force => C_DANGER,
        }
    }

    /// The options of a transaction in this mode.
    #[verifier::allow_in_spec]
    pub fn flags(self) -> TransFlags
        returns
            (TransFlags {
                recurse: self == Mode::Recursive || self == Mode::Full,
                no_save: self == Mode::Full,
                no_deps: self == Mode::Force,
            }),
    {
        match self {
            Mode::Simple => TransFlags { recurse: false, no_save: false, no_deps: false },
            Mode::Recursive => TransFlags { recurse: true, no_save: false, no_deps: false },
            Mode::Full => TransFlags { recurse: true, no_save: true, no_deps: false },
            Mode::Force => TransFlags { recurse: false, no_save: false, no_deps: true },
        }
    }

    /// The mode after this one.
    #[verifier::allow_in_spec]
    pub fn next(self) -> Mode
        returns
            (match self {
                Mode::Simple => Mode::Recursive,
                Mode::Recursive => Mode::Full,
                Mode::Full => Mode::Force,
                Mode::Force => Mode::Simple,
            }),
    {
        match self {
            Mode::Simple => Mode::Recursive,
            Mode::Recursive => Mode::Full,
            Mode::Full => Mode::Force,
            Mode::Force => Mode::Simple,
        }
    }
}

/// How packages are listed.
#[derive(Clone, Copy, PartialEq, Eq, Debug, Structural)]
pub enum SortMode {
    /// By name.
    Name,
    /// The largest first.
    Size,
    /// Orphans first, then by name.
    OrphansFirst,
}

impl SortMode {
    /// The sort mode after this one.
    #[verifier::allow_in_spec]
    pub fn next(self) -> SortMode
        returns
            (match self {
                SortMode::Name => SortMode::Size,
                SortMode::Size => SortMode::OrphansFirst,
                SortMode::OrphansFirst => SortMode::Name,
            }),
    {
        match self {
            SortMode::Name => SortMode::Size,
            SortMode::Size => SortMode::OrphansFirst,
            SortMode::OrphansFirst => SortMode::Name,
        }
    }

    /// The name of the sort mode.
    pub open spec fn label_text(self) -> Seq<char> {
        match self {
            SortMode::Name => "Name"@,
            SortMode::Size => "Size↓"@,
            SortMode::OrphansFirst => "Orphans↑"@,
        }
    }

    /// The name of the sort mode.
    pub fn label(self) -> (r: &'static str)
        ensures
            r@ == self.label_text(),
    {
        match self {
            SortMode::Name => "Name",
            SortMode::Size => "Size↓",
            SortMode::OrphansFirst => "Orphans↑",
        }
    }
}

/// Going through the removal modes leads back to the first after four steps, and
/// not before.
pub proof fn modes_cycle(m: Mode)
    ensures
        m.next().next().next().next() == m,
        m.next() != m,
        m.next().next() != m,
        m.next().next().next() != m,
{
}

/// Going through the sort modes leads back to the first after three steps, and
/// not before.
pub proof fn sort_modes_cycle(m: SortMode)
    ensures
        m.next().next().next() == m,
        m.next() != m,
        m.next().next() != m,
{
}

/// The options, the label and the colour of each mode, as they are written for pacman.
pub proof fn modes_mean_what_their_letters_say(mode: Mode)
    ensures
        mode.flags() == match mode {
            Mode::Simple => TransFlags { recurse: false, no_save: false, no_deps: false },
            Mode::Recursive => TransFlags { recurse: true, no_save: false, no_deps: false },
            Mode::Full => TransFlags { recurse: true, no_save: true, no_deps: false },
            Mode::Force => TransFlags { recurse: false, no_save: false, no_deps: true },
        },
        mode.label_text() == match mode {
            Mode::Simple => "R"@,
            Mode::Recursive => "Rs"@,
            Mode::Full => "Rns"@,
            Mode::Force => "Rdd ⚠"@,
        },
        mode.color() == match mode {
            Mode::Simple => Color::Green,
            Mode::Recursive => Color::Cyan,
            Mode::Full => Color::Yellow,
            Mode::Force => Color::LightRed,
        },
{
}

} // verus!
