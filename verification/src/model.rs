//! The state of the program as mathematical values, and what a key and a message
//! do to it.

use crate::app::Key;
use crate::listing;
use crate::mode::{Mode, SortMode, TransFlags};
use crate::package;
use crate::package::PkgInfo;
use crate::text;
use vstd::prelude::*;

verus! {

/// What is on the screen.
pub ghost enum ScreenModel {
    Browse,
    Help,
    Confirm {
        targets: Seq<Seq<char>>,
        freed: i64,
        warnings: Seq<Seq<char>>,
        input: Seq<char>,
        flags: TransFlags,
    },
    Removing { progress: u8, current_pkg: Seq<char>, log: Seq<Seq<char>> },
    Finished { success: bool, message: Seq<char> },
}

/// What the program is to do after a key.
pub ghost enum ActionModel {
    Stay,
    Quit,
    DryRun { names: Seq<Seq<char>>, flags: TransFlags },
    Remove { targets: Seq<Seq<char>>, flags: TransFlags },
    Refresh,
}

/// A message of the worker.
pub ghost enum MessageModel {
    DryRunOk { targets: Seq<Seq<char>>, freed: i64, warnings: Seq<Seq<char>> },
    DryRunErr(Seq<char>),
    Log(Seq<char>),
    Progress(u8, Seq<char>),
    Done(Result<(), Seq<char>>),
    Refreshed(Seq<PkgInfo>),
}

/// The most lines that the log of a removal keeps.
pub open spec fn log_limit() -> nat {
    30
}

/// The last place of `list`, or `0` where it has none.
pub open spec fn last_place(list: Seq<usize>) -> usize {
    if list.len() == 0 {
        0
    } else {
        (list.len() - 1) as usize
    }
}

/// The state of the program.
pub ghost struct AppModel {
    pub pkgs: Seq<PkgInfo>,
    /// The places in `pkgs` of the packages that are listed.
    pub filtered: Seq<usize>,
    /// The place in `filtered` that is selected.
    pub cursor: usize,
    /// The places in `pkgs` of the packages that are marked.
    pub marked: Set<usize>,
    pub query: Seq<char>,
    pub mode: Mode,
    pub sort_mode: SortMode,
    pub show_orphans: bool,
    pub screen: ScreenModel,
    pub searching: bool,
}

impl AppModel {
    /// What holds of every state: the list shows exactly the packages that the
    /// search and the orphan filter leave, in the chosen order; the cursor is in
    /// the list; only packages that exist are marked; the log is bounded.
    pub open spec fn wf(self) -> bool {
        &&& self.pkgs.len() <= usize::MAX
        &&& self.filtered == listing::listing(
            self.pkgs,
            self.query,
            self.show_orphans,
            self.sort_mode,
        )
        &&& self.cursor <= last_place(self.filtered)
        &&& forall|i: usize| self.marked.contains(i) ==> i < self.pkgs.len()
        &&& match self.screen {
            ScreenModel::Removing { log, .. } => log.len() <= log_limit(),
            _ => true,
        }
    }

    /// The state after the list has been made anew.
    pub open spec fn refiltered(self) -> AppModel {
        let list = listing::listing(self.pkgs, self.query, self.show_orphans, self.sort_mode);
        AppModel {
            filtered: list,
            cursor: if self.cursor <= last_place(list) {
                self.cursor
            } else {
                last_place(list)
            },
            ..self
        }
    }

    /// The state with the selection moved by `delta` rows, from the last row on
    /// to the first and back.
    pub open spec fn moved(self, delta: int) -> AppModel {
        if self.filtered.len() == 0 {
            self
        } else {
            AppModel {
                cursor: ((self.cursor + delta) % (self.filtered.len() as int)) as usize,
                ..self
            }
        }
    }

    /// The state with the mark of the selected package set or taken off.
    pub open spec fn toggled(self) -> AppModel {
        if self.cursor >= self.filtered.len() {
            self
        } else {
            let i = self.filtered[self.cursor as int];
            AppModel {
                marked: if self.marked.contains(i) {
                    self.marked.remove(i)
                } else {
                    self.marked.insert(i)
                },
                ..self
            }
        }
    }

    /// Whether all packages that are listed are marked.
    pub open spec fn all_marked(self) -> bool {
        forall|k: int| 0 <= k < self.filtered.len() ==> self.marked.contains(self.filtered[k])
    }

    /// The state with all listed packages marked; with none of them marked where
    /// all were.
    pub open spec fn toggled_all(self) -> AppModel {
        AppModel {
            marked: if self.all_marked() {
                self.marked.difference(self.filtered.to_set())
            } else {
                self.marked.union(self.filtered.to_set())
            },
            ..self
        }
    }

    /// The places of the orphans.
    pub open spec fn orphan_places(self) -> Set<usize> {
        Set::new(|i: usize| i < self.pkgs.len() && self.pkgs[i as int].orphan())
    }

    /// The state with the orphans marked and nothing else, in the mode that also
    /// removes what they alone needed.
    pub open spec fn orphans_marked(self) -> AppModel {
        AppModel {
            marked: self.orphan_places(),
            mode: Mode::Recursive,
            ..self
        }
    }

    /// What a dry run of the marked packages asks for.
    pub open spec fn dry_run(self) -> ActionModel {
        if self.marked.is_empty() {
            ActionModel::Stay
        } else {
            ActionModel::DryRun {
                names: listing::names_of(self.pkgs, self.marked),
                flags: self.mode.flags(),
            }
        }
    }

    /// What a key does while a search is typed.
    pub open spec fn search_key(self, key: Key) -> AppModel {
        match key {
            Key::Esc | Key::Enter => AppModel { searching: false, ..self },
            Key::Char(c) => AppModel { query: self.query.push(c), ..self }.refiltered(),
            Key::Backspace => AppModel {
                query: if self.query.len() > 0 {
                    self.query.drop_last()
                } else {
                    self.query
                },
                ..self
            }.refiltered(),
            _ => self,
        }
    }

    /// What a key that stands for a character does in the list.
    pub open spec fn browse_char(self, c: char) -> (AppModel, ActionModel) {
        if c == 'q' {
            (self, ActionModel::Quit)
        } else if c == '/' {
            (AppModel { searching: true, ..self }, ActionModel::Stay)
        } else if c == '?' {
            (AppModel { screen: ScreenModel::Help, ..self }, ActionModel::Stay)
        } else if c == 'k' {
            (self.moved(-1), ActionModel::Stay)
        } else if c == 'j' {
            (self.moved(1), ActionModel::Stay)
        } else if c == 'g' {
            (AppModel { cursor: 0, ..self }, ActionModel::Stay)
        } else if c == 'G' {
            (AppModel { cursor: last_place(self.filtered), ..self }, ActionModel::Stay)
        } else if c == ' ' {
            (self.toggled(), ActionModel::Stay)
        } else if c == 'a' {
            (self.toggled_all(), ActionModel::Stay)
        } else if c == 'O' {
            (self.orphans_marked(), ActionModel::Stay)
        } else if c == 'd' {
            (self, self.dry_run())
        } else if c == 'r' {
            (self, ActionModel::Refresh)
        } else if c == 'o' {
            (
                AppModel { show_orphans: !self.show_orphans, ..self }.refiltered(),
                ActionModel::Stay,
            )
        } else if c == 's' {
            (
                AppModel { sort_mode: self.sort_mode.next(), ..self }.refiltered(),
                ActionModel::Stay,
            )
        } else if c == '1' {
            (AppModel { mode: Mode::Simple, ..self }, ActionModel::Stay)
        } else if c == '2' {
            (AppModel { mode: Mode::Recursive, ..self }, ActionModel::Stay)
        } else if c == '3' {
            (AppModel { mode: Mode::Full, ..self }, ActionModel::Stay)
        } else if c == '4' {
            (AppModel { mode: Mode::Force, ..self }, ActionModel::Stay)
        } else {
            (self, ActionModel::Stay)
        }
    }

    /// What `Esc` does in the list: it takes off the orphan filter or, where
    /// there is none, the search.
    pub open spec fn cleared(self) -> AppModel {
        if self.show_orphans {
            AppModel { show_orphans: false, ..self }.refiltered()
        } else if self.query.len() > 0 {
            AppModel { query: Seq::empty(), ..self }.refiltered()
        } else {
            self
        }
    }

    /// What a key does in the list.
    pub open spec fn browse_key(self, key: Key) -> (AppModel, ActionModel) {
        match key {
            Key::Char(c) => self.browse_char(c),
            Key::Esc => (self.cleared(), ActionModel::Stay),
            Key::Up => (self.moved(-1), ActionModel::Stay),
            Key::Down => (self.moved(1), ActionModel::Stay),
            Key::PageUp => (self.moved(-10), ActionModel::Stay),
            Key::PageDown => (self.moved(10), ActionModel::Stay),
            Key::Home => (AppModel { cursor: 0, ..self }, ActionModel::Stay),
            Key::End => (
                AppModel { cursor: last_place(self.filtered), ..self },
                ActionModel::Stay,
            ),
            Key::Tab => (AppModel { mode: self.mode.next(), ..self }, ActionModel::Stay),
            Key::Enter | Key::Backspace | Key::Other => (self, ActionModel::Stay),
        }
    }

    /// What a key does while a removal waits to be confirmed.
    pub open spec fn confirm_key(self, key: Key) -> (AppModel, ActionModel) {
        match self.screen {
            ScreenModel::Confirm { targets, freed, warnings, input, flags } => match key {
                Key::Enter => if text::trimmed(input) == "yes"@ {
                    (
                        AppModel {
                            screen: ScreenModel::Removing {
                                progress: 0,
                                current_pkg: Seq::empty(),
                                log: seq!["Initialising transaction…"@],
                            },
                            ..self
                        },
                        ActionModel::Remove { targets, flags },
                    )
                } else {
                    (self, ActionModel::Stay)
                },
                Key::Esc => (AppModel { screen: ScreenModel::Browse, ..self }, ActionModel::Stay),
                Key::Char(c) => (
                    AppModel {
                        screen: ScreenModel::Confirm {
                            targets,
                            freed,
                            warnings,
                            input: input.push(c),
                            flags,
                        },
                        ..self
                    },
                    ActionModel::Stay,
                ),
                Key::Backspace => (
                    AppModel {
                        screen: ScreenModel::Confirm {
                            targets,
                            freed,
                            warnings,
                            input: if input.len() > 0 {
                                input.drop_last()
                            } else {
                                input
                            },
                            flags,
                        },
                        ..self
                    },
                    ActionModel::Stay,
                ),
                _ => (self, ActionModel::Stay),
            },
            _ => if key == Key::Esc {
                (AppModel { screen: ScreenModel::Browse, ..self }, ActionModel::Stay)
            } else {
                (self, ActionModel::Stay)
            },
        }
    }

    /// What a key does, held together with `Ctrl` or not: the state after it and
    /// what the program is to do.
    pub open spec fn key(self, key: Key, ctrl: bool) -> (AppModel, ActionModel) {
        if key == Key::Char('c') && ctrl {
            (self, ActionModel::Quit)
        } else {
            match self.screen {
                ScreenModel::Finished { .. } | ScreenModel::Help => (
                    AppModel { screen: ScreenModel::Browse, ..self },
                    ActionModel::Stay,
                ),
                ScreenModel::Removing { .. } => (self, ActionModel::Stay),
                ScreenModel::Confirm { .. } => self.confirm_key(key),
                ScreenModel::Browse => if self.searching {
                    (self.search_key(key), ActionModel::Stay)
                } else {
                    self.browse_key(key)
                },
            }
        }
    }

    /// The state with one line more in the log of the removal, the oldest line
    /// being dropped where there are too many.
    pub open spec fn logged(self, line: Seq<char>) -> AppModel {
        match self.screen {
            ScreenModel::Removing { progress, current_pkg, log } => AppModel {
                screen: ScreenModel::Removing {
                    progress,
                    current_pkg,
                    log: if log.len() + 1 > log_limit() {
                        log.push(line).drop_first()
                    } else {
                        log.push(line)
                    },
                },
                ..self
            },
            _ => self,
        }
    }

    /// What a message of the worker does. `reloaded` holds the packages that are
    /// installed after a removal, where they could be read.
    pub open spec fn message(
        self,
        msg: MessageModel,
        reloaded: Option<Seq<PkgInfo>>,
    ) -> AppModel {
        match msg {
            MessageModel::DryRunOk { targets, freed, warnings } => AppModel {
                screen: ScreenModel::Confirm {
                    targets,
                    freed,
                    warnings,
                    input: Seq::empty(),
                    flags: self.mode.flags(),
                },
                ..self
            },
            MessageModel::DryRunErr(message) => AppModel {
                screen: ScreenModel::Finished { success: false, message },
                ..self
            },
            MessageModel::Log(line) => self.logged(line),
            MessageModel::Progress(percent, pkg) => match self.screen {
                ScreenModel::Removing { log, .. } => AppModel {
                    screen: ScreenModel::Removing { progress: percent, current_pkg: pkg, log },
                    ..self
                },
                _ => self,
            },
            MessageModel::Done(Ok(_)) => {
                let done = match reloaded {
                    Some(pkgs) => AppModel { pkgs, marked: Set::empty(), ..self }.refiltered(),
                    None => self,
                };
                AppModel {
                    screen: ScreenModel::Finished {
                        success: true,
                        message: "Packages removed successfully."@,
                    },
                    ..done
                }
            },
            MessageModel::Done(Err(message)) => AppModel {
                screen: ScreenModel::Finished { success: false, message },
                ..self
            },
            MessageModel::Refreshed(pkgs) => AppModel {
                pkgs,
                marked: self.marked.filter(|i: usize| i < pkgs.len()),
                ..self
            }.refiltered(),
        }
    }

    /// The state at the start.
    pub open spec fn initial(pkgs: Seq<PkgInfo>) -> AppModel {
        AppModel {
            pkgs,
            filtered: package::indices(pkgs.len()),
            cursor: 0,
            marked: Set::empty(),
            query: Seq::empty(),
            mode: Mode::Recursive,
            sort_mode: SortMode::Name,
            show_orphans: false,
            screen: ScreenModel::Browse,
            searching: false,
        }.refiltered()
    }
}

} // verus!
