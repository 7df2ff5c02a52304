//! The state of the program, and how it follows keys and messages.

use crate::listing;
use crate::listing::list_packages;
use crate::mode::{Mode, SortMode, TransFlags};
use crate::model;
use crate::model::{ActionModel, AppModel, MessageModel, ScreenModel};
use crate::package::PkgInfo;
use crate::text;
use crate::text::{push_view, same, trim};
use std::collections::HashSet;
use vstd::prelude::*;

verus! {

/// A key of the keyboard.
#[derive(Clone, Copy, PartialEq, Eq, Debug, Structural)]
pub enum Key {
    Char(char),
    Enter,
    Esc,
    Backspace,
    Tab,
    Up,
    Down,
    PageUp,
    PageDown,
    Home,
    End,
    /// Any other key.
    Other,
}

/// A message of the worker that runs transactions.
#[derive(Debug)]
pub enum WorkerMsg {
    /// A dry run has found out what would be removed.
    DryRunOk { targets: Vec<String>, freed: i64, warnings: Vec<String> },
    /// A dry run has failed.
    DryRunErr(String),
    /// A line for the log of a removal.
    Log(String),
    /// How far a removal is, and at which package.
    Progress(u8, String),
    /// A removal has ended.
    Done(Result<(), String>),
    /// The packages have been read again.
    Refreshed(Vec<PkgInfo>),
}

impl View for WorkerMsg {
    type V = MessageModel;

    open spec fn view(&self) -> MessageModel {
        match *self {
            WorkerMsg::DryRunOk { targets, freed, warnings } => MessageModel::DryRunOk {
                targets: text::views(targets@),
                freed,
                warnings: text::views(warnings@),
            },
            WorkerMsg::DryRunErr(e) => MessageModel::DryRunErr(e@),
            WorkerMsg::Log(l) => MessageModel::Log(l@),
            WorkerMsg::Progress(p, pkg) => MessageModel::Progress(p, pkg@),
            WorkerMsg::Done(Ok(_)) => MessageModel::Done(Ok(())),
            WorkerMsg::Done(Err(e)) => MessageModel::Done(Err(e@)),
            WorkerMsg::Refreshed(pkgs) => MessageModel::Refreshed(pkgs@),
        }
    }
}

impl WorkerMsg {
    /// Whether the packages are to be read again before the message is handed
    /// to [`App::process_message`].
    pub fn wants_reload(&self) -> (r: bool)
        ensures
            r == (self@ == MessageModel::Done(Ok(()))),
    {
        match self {
            WorkerMsg::Done(Ok(_)) => true,
            _ => false,
        }
    }
}

/// What is on the screen.
#[derive(Debug)]
pub enum Screen {
    Browse,
    Help,
    Confirm {
        targets: Vec<String>,
        freed: i64,
        warnings: Vec<String>,
        input: String,
        flags: TransFlags,
    },
    Removing { progress: u8, current_pkg: String, log: Vec<String> },
    Finished { success: bool, message: String },
}

impl View for Screen {
    type V = ScreenModel;

    open spec fn view(&self) -> ScreenModel {
        match *self {
            Screen::Browse => ScreenModel::Browse,
            Screen::Help => ScreenModel::Help,
            Screen::Confirm { targets, freed, warnings, input, flags } => ScreenModel::Confirm {
                targets: text::views(targets@),
                freed,
                warnings: text::views(warnings@),
                input: input@,
                flags,
            },
            Screen::Removing { progress, current_pkg, log } => ScreenModel::Removing {
                progress,
                current_pkg: current_pkg@,
                log: text::views(log@),
            },
            Screen::Finished { success, message } => ScreenModel::Finished {
                success,
                message: message@,
            },
        }
    }
}

/// What the program is to do after a key.
#[derive(Debug)]
pub enum Action {
    /// Nothing.
    Stay,
    /// End.
    Quit,
    /// Start a dry run of the removal of the packages `names`.
    DryRun { names: Vec<String>, flags: TransFlags },
    /// Start the removal of the packages `targets`.
    Remove { targets: Vec<String>, flags: TransFlags },
    /// Read the packages again.
    Refresh,
}

impl View for Action {
    type V = ActionModel;

    open spec fn view(&self) -> ActionModel {
        match *self {
            Action::Stay => ActionModel::Stay,
            Action::Quit => ActionModel::Quit,
            Action::DryRun { names, flags } => ActionModel::DryRun {
                names: text::views(names@),
                flags,
            },
            Action::Remove { targets, flags } => ActionModel::Remove {
                targets: text::views(targets@),
                flags,
            },
            Action::Refresh => ActionModel::Refresh,
        }
    }
}

/// The state of the program.
#[derive(Debug)]
pub struct App {
    pub pkgs: Vec<PkgInfo>,
    /// The places in `pkgs` of the packages that are listed.
    pub filtered: Vec<usize>,
    /// The place in `filtered` that is selected.
    pub cursor: usize,
    /// The places in `pkgs` of the packages that are marked.
    pub marked: HashSet<usize>,
    pub query: String,
    pub mode: Mode,
    pub sort_mode: SortMode,
    /// Whether only orphans are listed.
    pub show_orphans: bool,
    pub screen: Screen,
    /// Whether a search is being typed.
    pub searching: bool,
}

impl View for App {
    type V = AppModel;

    open spec fn view(&self) -> AppModel {
        AppModel {
            pkgs: self.pkgs@,
            filtered: self.filtered@,
            cursor: self.cursor,
            marked: self.marked@,
            query: self.query@,
            mode: self.mode,
            sort_mode: self.sort_mode,
            show_orphans: self.show_orphans,
            screen: self.screen@,
            searching: self.searching,
        }
    }
}

impl App {
    /// The state at the start.
    pub fn new(pkgs: Vec<PkgInfo>) -> (r: App)
        ensures
            r@ == AppModel::initial(pkgs@),
            r@.wf(),
    {
        let filtered = crate::package::all_indices(pkgs.len());
        let mut app = App {
            pkgs,
            filtered,
            cursor: 0,
            marked: HashSet::new(),
            query: String::new(),
            mode: Mode::Recursive,
            sort_mode: SortMode::Name,
            show_orphans: false,
            screen: Screen::Browse,
            searching: false,
        };
        app.apply_filter();
        app
    }

    /// Makes the list anew, and keeps the selection in it.
    pub fn apply_filter(&mut self)
        ensures
            final(self)@ == old(self)@.refiltered(),
    {
        self.filtered = list_packages(
            &self.pkgs,
            self.query.as_str(),
            self.show_orphans,
            self.sort_mode,
        );
        let last: usize = self.filtered.len().saturating_sub(1);
        if self.cursor > last {
            self.cursor = last;
        }
    }

    /// How many packages are orphans.
    pub fn orphan_count(&self) -> (r: usize)
        ensures
            r == listing::orphans(self@.pkgs),
    {
        listing::orphan_count(&self.pkgs)
    }

    /// Moves the selection by `delta` rows, from the last row on to the first
    /// and back.
    pub fn move_cursor(&mut self, delta: i64)
        ensures
            final(self)@ == old(self)@.moved(delta as int),
    {
        if self.filtered.is_empty() {
            return;
        }
        let len: i128 = self.filtered.len() as i128;
        let to: i128 = self.cursor as i128 + delta as i128;
        match to.checked_rem_euclid(len) {
            Some(place) => {
                self.cursor = place as usize;
            },
            None => {},
        }
    }

    /// Marks the selected package, or takes its mark off.
    pub fn toggle_mark(&mut self)
        ensures
            final(self)@ == old(self)@.toggled(),
    {
        if self.cursor < self.filtered.len() {
            let i: usize = self.filtered[self.cursor];
            if self.marked.contains(&i) {
                self.marked.remove(&i);
            } else {
                self.marked.insert(i);
            }
        }
    }

    /// Marks all listed packages; takes the marks off where all have one.
    pub fn toggle_all(&mut self)
        ensures
            final(self)@ == old(self)@.toggled_all(),
    {
        let ghost before = self@;
        let mut all_marked = true;
        let mut k: usize = 0;
        while k < self.filtered.len()
            invariant
                k <= self.filtered@.len(),
                self@ == before,
                all_marked <==> forall|l: int|
                    0 <= l < k ==> self.marked@.contains(#[trigger] self.filtered@[l]),
            decreases self.filtered@.len() - k,
        {
            if !self.marked.contains(&self.filtered[k]) {
                all_marked = false;
            }
            k += 1;
        }
        assert(all_marked == before.all_marked());
        let mut n: usize = 0;
        let ghost list = self.filtered@;
        assert(list.take(0).to_set() =~= Set::empty());
        assert(self.marked@ =~= before.marked.difference(list.take(0).to_set()));
        assert(self.marked@ =~= before.marked.union(list.take(0).to_set()));
        while n < self.filtered.len()
            invariant
                n <= self.filtered@.len(),
                list == self.filtered@,
                self.marked@ == if all_marked {
                    before.marked.difference(list.take(n as int).to_set())
                } else {
                    before.marked.union(list.take(n as int).to_set())
                },
                self@ == (AppModel { marked: self.marked@, ..before }),
            decreases self.filtered@.len() - n,
        {
            let i: usize = self.filtered[n];
            let ghost seen = list.take(n as int).to_set();
            proof {
                let more = list.take(n as int + 1);
                assert(more =~= list.take(n as int).push(i));
                lemma_push_to_set(list.take(n as int), i);
            }
            if all_marked {
                self.marked.remove(&i);
                assert(self.marked@ =~= before.marked.difference(seen.insert(i)));
            } else {
                self.marked.insert(i);
                assert(self.marked@ =~= before.marked.union(seen.insert(i)));
            }
            n += 1;
        }
        assert(list.take(list.len() as int) =~= list);
    }

    /// Marks the orphans and nothing else, and changes to the recursive mode, so that
    /// the next removal cleans them all up.
    pub fn mark_all_orphans(&mut self)
        ensures
            final(self)@ == old(self)@.orphans_marked(),
    {
        let ghost before = self@;
        self.marked.clear();
        let mut i: usize = 0;
        while i < self.pkgs.len()
            invariant
                i <= self.pkgs@.len(),
                self@ == (AppModel { marked: self.marked@, ..before }),
                forall|k: usize|
                    self.marked@.contains(k) <==> k < i && self.pkgs@[k as int].orphan(),
            decreases self.pkgs@.len() - i,
        {
            if self.pkgs[i].is_orphan() {
                self.marked.insert(i);
            }
            i += 1;
        }
        assert(self.marked@ =~= before.orphan_places());
        self.mode = Mode::Recursive;
    }

    /// The selected package.
    pub fn selected_pkg(&self) -> (r: Option<&PkgInfo>)
        requires
            self@.wf(),
        ensures
            self.filtered@.len() == 0 ==> r is None,
            self.filtered@.len() > 0 ==> r == Some(
                &self.pkgs@[self.filtered@[self.cursor as int] as int],
            ),
    {
        if self.cursor < self.filtered.len() {
            proof {
                crate::laws::listed_packages_exist(self@, self.cursor as int);
            }
            Some(&self.pkgs[self.filtered[self.cursor]])
        } else {
            None
        }
    }

    /// The names of the marked packages, in order.
    pub fn marked_names(&self) -> (r: Vec<String>)
        ensures
            text::views(r@) == listing::names_of(self@.pkgs, self@.marked),
    {
        listing::marked_names(&self.pkgs, &self.marked)
    }

    /// The sizes of the marked packages together, without the bits above the
    /// 64th.
    pub fn marked_size(&self) -> (r: i64)
        ensures
            r == listing::wrapped(
                listing::size_sum(self@.pkgs, self@.marked, self@.pkgs.len()),
            ),
    {
        listing::marked_size(&self.pkgs, &self.marked)
    }

    /// Asks for a dry run of the removal of the marked packages, if there are any.
    pub fn begin_dry_run(&self) -> (r: Action)
        ensures
            r@ == self@.dry_run(),
    {
        if self.marked.is_empty() {
            return Action::Stay;
        }
        Action::DryRun { names: self.marked_names(), flags: self.mode.flags() }
    }

    /// Asks for the removal of `targets`, and shows how it goes on.
    pub fn begin_removal(&mut self, targets: Vec<String>, flags: TransFlags) -> (r: Action)
        ensures
            r@ == (ActionModel::Remove { targets: text::views(targets@), flags }),
            final(self)@ == (AppModel {
                screen: ScreenModel::Removing {
                    progress: 0,
                    current_pkg: Seq::empty(),
                    log: seq!["Initialising transaction…"@],
                },
                ..old(self)@
            }),
    {
        let mut log: Vec<String> = Vec::new();
        push_view(&mut log, "Initialising transaction…".to_owned());
        assert(text::views(log@) =~= seq!["Initialising transaction…"@]);
        self.screen = Screen::Removing { progress: 0, current_pkg: String::new(), log };
        Action::Remove { targets, flags }
    }

    /// Asks for the packages to be read again.
    pub fn begin_refresh(&self) -> (r: Action)
        ensures
            r@ == ActionModel::Refresh,
    {
        Action::Refresh
    }

    /// Follows a key, held together with `Ctrl` or not, and says what the program
    /// is to do.
    pub fn handle_key(&mut self, key: Key, ctrl: bool) -> (r: Action)
        requires
            old(self)@.wf(),
        ensures
            (final(self)@, r@) == old(self)@.key(key, ctrl),
            final(self)@.wf(),
    {
        proof {
            crate::laws::keys_keep_the_state_valid(self@, key, ctrl);
        }
        if key == Key::Char('c') && ctrl {
            return Action::Quit;
        }
        match &self.screen {
            Screen::Finished { .. } | Screen::Help => {
                self.screen = Screen::Browse;
                Action::Stay
            },
            Screen::Removing { .. } => Action::Stay,
            Screen::Confirm { .. } => self.key_confirm(key),
            Screen::Browse => {
                if self.searching {
                    self.key_search(key);
                    Action::Stay
                } else {
                    self.key_browse(key)
                }
            },
        }
    }

    /// Follows a key while a search is typed.
    pub fn key_search(&mut self, key: Key)
        ensures
            final(self)@ == old(self)@.search_key(key),
    {
        match key {
            Key::Esc | Key::Enter => {
                self.searching = false;
            },
            Key::Char(c) => {
                self.query.push(c);
                self.apply_filter();
            },
            Key::Backspace => {
                self.query.pop();
                self.apply_filter();
            },
            _ => {},
        }
    }

    /// Follows a key in the list.
    pub fn key_browse(&mut self, key: Key) -> (r: Action)
        requires
            old(self)@.wf(),
        ensures
            (final(self)@, r@) == old(self)@.browse_key(key),
    {
        match key {
            Key::Char('q') => {
                return Action::Quit;
            },
            Key::Char('/') => {
                self.searching = true;
            },
            Key::Char('?') => {
                self.screen = Screen::Help;
            },
            Key::Esc => {
                if self.show_orphans {
                    self.show_orphans = false;
                    self.apply_filter();
                } else if !self.query.as_str().is_empty() {
                    self.query = String::new();
                    self.apply_filter();
                }
            },
            Key::Up | Key::Char('k') => {
                self.move_cursor(-1);
            },
            Key::Down | Key::Char('j') => {
                self.move_cursor(1);
            },
            Key::PageUp => {
                self.move_cursor(-10);
            },
            Key::PageDown => {
                self.move_cursor(10);
            },
            Key::Char('g') | Key::Home => {
                self.cursor = 0;
            },
            Key::Char('G') | Key::End => {
                self.cursor = self.filtered.len().saturating_sub(1);
            },
            Key::Char(' ') => {
                self.toggle_mark();
            },
            Key::Char('a') => {
                self.toggle_all();
            },
            Key::Char('O') => {
                self.mark_all_orphans();
            },
            Key::Char('d') => {
                return self.begin_dry_run();
            },
            Key::Char('r') => {
                return self.begin_refresh();
            },
            Key::Char('o') => {
                self.show_orphans = !self.show_orphans;
                self.apply_filter();
            },
            Key::Char('s') => {
                self.sort_mode = self.sort_mode.next();
                self.apply_filter();
            },
            Key::Char('1') => {
                self.mode = Mode::Simple;
            },
            Key::Char('2') => {
                self.mode = Mode::Recursive;
            },
            Key::Char('3') => {
                self.mode = Mode::Full;
            },
            Key::Char('4') => {
                self.mode = Mode::Force;
            },
            Key::Tab => {
                self.mode = self.mode.next();
            },
            _ => {},
        }
        Action::Stay
    }

    /// Follows a key while a removal waits to be confirmed.
    pub fn key_confirm(&mut self, key: Key) -> (r: Action)
        ensures
            (final(self)@, r@) == old(self)@.confirm_key(key),
    {
        let ready = match &self.screen {
            Screen::Confirm { input, .. } => key == Key::Enter && same(
                trim(input.as_str()).as_str(),
                "yes",
            ),
            _ => false,
        };
        if ready {
            let mut screen = Screen::Browse;
            std::mem::swap(&mut screen, &mut self.screen);
            return match screen {
                Screen::Confirm { targets, flags, .. } => self.begin_removal(targets, flags),
                _ => Action::Stay,
            };
        }
        match key {
            Key::Esc => {
                self.screen = Screen::Browse;
            },
            Key::Char(c) => {
                if let Screen::Confirm { input, .. } = &mut self.screen {
                    input.push(c);
                }
            },
            Key::Backspace => {
                if let Screen::Confirm { input, .. } = &mut self.screen {
                    input.pop();
                }
            },
            _ => {},
        }
        Action::Stay
    }

    /// Follows a message of the worker. `reloaded` holds the packages that are
    /// installed after a removal, where they could be read; only a message that
    /// [wants](WorkerMsg::wants_reload) them looks at it.
    pub fn process_message(&mut self, msg: WorkerMsg, reloaded: Option<Vec<PkgInfo>>)
        requires
            old(self)@.wf(),
        ensures
            final(self)@ == old(self)@.message(msg@, packages(reloaded)),
            final(self)@.wf(),
    {
        proof {
            assert(reloaded matches Some(pkgs) ==> pkgs@.len() == pkgs.len());
            assert(msg matches WorkerMsg::Refreshed(pkgs) ==> pkgs@.len() == pkgs.len());
            crate::laws::messages_keep_the_state_valid(self@, msg@, packages(reloaded));
        }
        match msg {
            WorkerMsg::DryRunOk { targets, freed, warnings } => {
                self.screen = Screen::Confirm {
                    targets,
                    freed,
                    warnings,
                    input: String::new(),
                    flags: self.mode.flags(),
                };
            },
            WorkerMsg::DryRunErr(message) => {
                self.screen = Screen::Finished { success: false, message };
            },
            WorkerMsg::Log(line) => {
                if let Screen::Removing { log, .. } = &mut self.screen {
                    push_log(log, line);
                }
            },
            WorkerMsg::Progress(percent, pkg) => {
                if let Screen::Removing { progress, current_pkg, .. } = &mut self.screen {
                    *progress = percent;
                    *current_pkg = pkg;
                }
            },
            WorkerMsg::Done(Ok(_)) => {
                if let Some(pkgs) = reloaded {
                    self.pkgs = pkgs;
                    self.marked.clear();
                    self.apply_filter();
                }
                self.screen = Screen::Finished {
                    success: true,
                    message: "Packages removed successfully.".to_owned(),
                };
            },
            WorkerMsg::Done(Err(message)) => {
                self.screen = Screen::Finished { success: false, message };
            },
            WorkerMsg::Refreshed(pkgs) => {
                self.pkgs = pkgs;
                self.keep_marks();
                self.apply_filter();
            },
        }
    }

    /// Takes off the marks of places that no package has.
    fn keep_marks(&mut self)
        ensures
            final(self)@ == (AppModel {
                marked: old(self)@.marked.filter(|i: usize| i < old(self)@.pkgs.len()),
                ..old(self)@
            }),
    {
        let mut kept: HashSet<usize> = HashSet::new();
        let mut i: usize = 0;
        while i < self.pkgs.len()
            invariant
                i <= self.pkgs@.len(),
                forall|k: usize| kept@.contains(k) <==> k < i && self.marked@.contains(k),
            decreases self.pkgs@.len() - i,
        {
            if self.marked.contains(&i) {
                kept.insert(i);
            }
            i += 1;
        }
        assert(kept@ =~= self.marked@.filter(|i: usize| i < self.pkgs@.len()));
        self.marked = kept;
    }
}

/// The packages that were read, where they could be.
pub open spec fn packages(read: Option<Vec<PkgInfo>>) -> Option<Seq<PkgInfo>> {
    match read {
        Some(pkgs) => Some(pkgs@),
        None => None,
    }
}

/// Adds a line to a log, and drops the oldest where there are too many.
fn push_log(log: &mut Vec<String>, line: String)
    ensures
        text::views(final(log)@) == if old(log)@.len() + 1 > model::log_limit() {
            text::views(old(log)@).push(line@).drop_first()
        } else {
            text::views(old(log)@).push(line@)
        },
{
    push_view(log, line);
    if log.len() > 30 {
        log.remove(0);
        assert(text::views(log@) =~= text::views(old(log)@).push(line@).drop_first());
    }
}

proof fn lemma_push_to_set<A>(s: Seq<A>, e: A)
    ensures
        s.push(e).to_set() == s.to_set().insert(e),
{
    let more = s.push(e);
    assert forall|x: A| #[trigger] more.to_set().contains(x) <==> s.to_set().insert(e).contains(
        x,
    ) by {
        if s.contains(x) {
            let l = choose|l: int| 0 <= l < s.len() && s[l] == x;
            assert(more[l] == x);
        }
        assert(more[s.len() as int] == e);
        if more.contains(x) && x != e {
            let l = choose|l: int| 0 <= l < more.len() && more[l] == x;
            assert(s[l] == x);
        }
    }
    assert(more.to_set() =~= s.to_set().insert(e));
}

/// The state, the actions and the messages are taken as they are: nothing of them is
/// left out.
pub proof fn states_are_taken_as_they_are(app: App)
    ensures
        app@.pkgs == app.pkgs@,
        app@.filtered == app.filtered@,
        app@.cursor == app.cursor,
        app@.marked == app.marked@,
        app@.query == app.query@,
        app@.mode == app.mode,
        app@.sort_mode == app.sort_mode,
        app@.show_orphans == app.show_orphans,
        app@.searching == app.searching,
        app@.screen == match app.screen {
            Screen::Browse => ScreenModel::Browse,
            Screen::Help => ScreenModel::Help,
            Screen::Confirm { targets, freed, warnings, input, flags } => ScreenModel::Confirm {
                targets: text::views(targets@),
                freed,
                warnings: text::views(warnings@),
                input: input@,
                flags,
            },
            Screen::Removing { progress, current_pkg, log } => ScreenModel::Removing {
                progress,
                current_pkg: current_pkg@,
                log: text::views(log@),
            },
            Screen::Finished { success, message } => ScreenModel::Finished {
                success,
                message: message@,
            },
        },
{
}

/// What the program is asked for, and what it is told, is taken as it is.
pub proof fn actions_and_messages_are_taken_as_they_are(
    names: Vec<String>,
    warnings: Vec<String>,
    flags: TransFlags,
    freed: i64,
    percent: u8,
    words: String,
    pkgs: Vec<PkgInfo>,
)
    ensures
        Action::Stay@ == ActionModel::Stay,
        Action::Quit@ == ActionModel::Quit,
        Action::Refresh@ == ActionModel::Refresh,
        (Action::DryRun { names, flags })@ == (ActionModel::DryRun {
            names: text::views(names@),
            flags,
        }),
        (Action::Remove { targets: names, flags })@ == (ActionModel::Remove {
            targets: text::views(names@),
            flags,
        }),
        (WorkerMsg::DryRunOk { targets: names, freed, warnings })@ == (MessageModel::DryRunOk {
            targets: text::views(names@),
            freed,
            warnings: text::views(warnings@),
        }),
        WorkerMsg::DryRunErr(words)@ == MessageModel::DryRunErr(words@),
        WorkerMsg::Log(words)@ == MessageModel::Log(words@),
        WorkerMsg::Progress(percent, words)@ == MessageModel::Progress(percent, words@),
        WorkerMsg::Done(Ok(()))@ == MessageModel::Done(Ok(())),
        WorkerMsg::Done(Err(words))@ == MessageModel::Done(Err(words@)),
        WorkerMsg::Refreshed(pkgs)@ == MessageModel::Refreshed(pkgs@),
{
}

} // verus!
