//! What the keys do.

use apr::app::{Action, App, Key, Screen, WorkerMsg};
use apr::mode::{Mode, SortMode, TransFlags};
use apr::package::{PkgInfo, Reason};

fn pkg(name: &str, size: i64, orphan: bool) -> PkgInfo {
    PkgInfo {
        name: name.to_string(),
        version: "1.0-1".to_string(),
        desc: String::new(),
        size,
        reason: if orphan { Reason::Depend } else { Reason::Explicit },
        depends: Vec::new(),
        optdeps: Vec::new(),
        required_by: Vec::new(),
    }
}

fn app() -> App {
    App::new(vec![
        pkg("acl", 30, true),
        pkg("bash", 90, false),
        pkg("curl", 10, false),
        pkg("dbus", 50, true),
    ])
}

fn press(app: &mut App, keys: &str) {
    for c in keys.chars() {
        app.handle_key(Key::Char(c), false);
    }
}

fn marked(app: &App) -> Vec<usize> {
    let mut v: Vec<usize> = app.marked.iter().copied().collect();
    v.sort();
    v
}

fn is_stay(a: &Action) -> bool {
    matches!(a, Action::Stay)
}

fn confirming(input: &str) -> App {
    let mut a = app();
    a.screen = Screen::Confirm {
        targets: vec!["bash".to_string(), "curl".to_string()],
        freed: 100,
        warnings: Vec::new(),
        input: input.to_string(),
        flags: TransFlags { recurse: true, no_save: true, no_deps: false },
    };
    a
}

fn snapshot(app: &App) -> String {
    format!(
        "{:?} {} {:?} {:?} {:?} {:?} {} {:?} {}",
        app.filtered,
        app.cursor,
        marked(app),
        app.query,
        app.mode,
        app.sort_mode,
        app.show_orphans,
        app.screen,
        app.searching
    )
}

#[test]
fn the_start() {
    let a = app();
    assert_eq!(a.filtered, vec![0, 1, 2, 3]);
    assert_eq!(a.cursor, 0);
    assert!(a.marked.is_empty());
    assert_eq!(a.mode, Mode::Recursive);
    assert_eq!(a.sort_mode, SortMode::Name);
    assert!(!a.show_orphans);
    assert!(!a.searching);
    assert!(matches!(a.screen, Screen::Browse));
}

#[test]
fn moving_wraps_around() {
    let mut a = app();
    a.handle_key(Key::Up, false);
    assert_eq!(a.cursor, 3);
    a.handle_key(Key::Down, false);
    assert_eq!(a.cursor, 0);
    press(&mut a, "jj");
    assert_eq!(a.cursor, 2);
    press(&mut a, "k");
    assert_eq!(a.cursor, 1);
    a.handle_key(Key::PageDown, false);
    assert_eq!(a.cursor, 3);
    a.handle_key(Key::PageUp, false);
    assert_eq!(a.cursor, 1);
}

#[test]
fn jumping_to_the_ends() {
    let mut a = app();
    press(&mut a, "G");
    assert_eq!(a.cursor, 3);
    press(&mut a, "g");
    assert_eq!(a.cursor, 0);
    a.handle_key(Key::End, false);
    assert_eq!(a.cursor, 3);
    a.handle_key(Key::Home, false);
    assert_eq!(a.cursor, 0);
}

#[test]
fn moves_add_up_and_lead_back() {
    for (x, y) in [(1, 2), (-7, 3), (100, -100), (i64::MAX, i64::MIN)] {
        let mut a = app();
        a.cursor = 1;
        a.move_cursor(x);
        a.move_cursor(y);
        let sum = (1 + x as i128 + y as i128).rem_euclid(4);
        assert_eq!(a.cursor as i128, sum);
    }
    let mut a = app();
    a.move_cursor(4);
    assert_eq!(a.cursor, 0);
}

#[test]
fn nothing_moves_in_an_empty_list() {
    let mut a = App::new(Vec::new());
    press(&mut a, "jkgG");
    a.handle_key(Key::PageDown, false);
    assert_eq!(a.cursor, 0);
    assert!(a.selected_pkg().is_none());
    press(&mut a, " aO");
    assert!(a.marked.is_empty());
}

#[test]
fn marking_toggles() {
    let mut a = app();
    press(&mut a, "j ");
    assert_eq!(marked(&a), vec![1]);
    press(&mut a, " ");
    assert!(a.marked.is_empty());
}

#[test]
fn marking_all_concerns_the_list() {
    let mut a = app();
    press(&mut a, "jj g");
    press(&mut a, "o");
    press(&mut a, "a");
    assert_eq!(marked(&a), vec![0, 2, 3]);
    press(&mut a, "a");
    assert_eq!(marked(&a), vec![2]);
    press(&mut a, "oa");
    assert_eq!(marked(&a), vec![0, 1, 2, 3]);
    press(&mut a, "a");
    assert!(a.marked.is_empty());
}

#[test]
fn marking_orphans_prepares_their_removal() {
    for mode in ["1", "2", "3", "4"] {
        let mut a = app();
        press(&mut a, "j ");
        press(&mut a, mode);
        press(&mut a, "O");
        assert_eq!(marked(&a), vec![0, 3]);
        assert_eq!(a.mode, Mode::Recursive);
    }
}

#[test]
fn searching_narrows_the_list() {
    let mut a = app();
    press(&mut a, "G/b");
    assert!(a.searching);
    assert_eq!(a.query, "b");
    assert_eq!(a.filtered, vec![1, 3]);
    assert_eq!(a.cursor, 1);
    press(&mut a, "A");
    assert_eq!(a.query, "bA");
    assert_eq!(a.filtered, vec![1]);
    assert_eq!(a.cursor, 0);
    a.handle_key(Key::Backspace, false);
    assert_eq!(a.query, "b");
    assert_eq!(a.filtered, vec![1, 3]);
    a.handle_key(Key::Enter, false);
    assert!(!a.searching);
    assert_eq!(a.filtered, vec![1, 3]);
    a.handle_key(Key::Esc, false);
    assert_eq!(a.query, "");
    assert_eq!(a.filtered, vec![0, 1, 2, 3]);
}

#[test]
fn searching_takes_all_characters() {
    let mut a = app();
    press(&mut a, "/q d?");
    assert_eq!(a.query, "q d?");
    assert!(a.searching);
    assert!(a.marked.is_empty());
    a.handle_key(Key::Down, false);
    a.handle_key(Key::Tab, false);
    assert_eq!(a.query, "q d?");
    for _ in 0..6 {
        a.handle_key(Key::Backspace, false);
    }
    assert_eq!(a.query, "");
    a.handle_key(Key::Esc, false);
    assert!(!a.searching);
}

#[test]
fn escape_clears_the_filters_one_by_one() {
    let mut a = app();
    press(&mut a, "/a");
    a.handle_key(Key::Enter, false);
    press(&mut a, "o");
    assert_eq!(a.filtered, vec![0]);
    a.handle_key(Key::Esc, false);
    assert!(!a.show_orphans);
    assert_eq!(a.filtered, vec![0, 1]);
    a.handle_key(Key::Esc, false);
    assert_eq!(a.filtered, vec![0, 1, 2, 3]);
    let before = snapshot(&a);
    a.handle_key(Key::Esc, false);
    assert_eq!(snapshot(&a), before);
}

#[test]
fn the_orphan_filter_toggles() {
    let mut a = app();
    press(&mut a, "G");
    press(&mut a, "o");
    assert_eq!(a.filtered, vec![0, 3]);
    assert_eq!(a.cursor, 1);
    press(&mut a, "o");
    assert_eq!(a.filtered, vec![0, 1, 2, 3]);
    assert_eq!(a.cursor, 1);
}

#[test]
fn the_orders_cycle() {
    let mut a = app();
    press(&mut a, "j");
    let before = snapshot(&a);
    press(&mut a, "s");
    assert_eq!(a.sort_mode, SortMode::Size);
    assert_eq!(a.filtered, vec![1, 3, 0, 2]);
    press(&mut a, "s");
    assert_eq!(a.sort_mode, SortMode::OrphansFirst);
    assert_eq!(a.filtered, vec![0, 3, 1, 2]);
    press(&mut a, "s");
    assert_eq!(snapshot(&a), before);
}

#[test]
fn the_modes_cycle() {
    let mut a = app();
    let before = snapshot(&a);
    for mode in [Mode::Full, Mode::Force, Mode::Simple, Mode::Recursive] {
        a.handle_key(Key::Tab, false);
        assert_eq!(a.mode, mode);
    }
    assert_eq!(snapshot(&a), before);
    for (key, mode) in
        [("1", Mode::Simple), ("2", Mode::Recursive), ("3", Mode::Full), ("4", Mode::Force)]
    {
        press(&mut a, key);
        assert_eq!(a.mode, mode);
    }
}

#[test]
fn labels_hints_and_options_of_the_modes() {
    let flags = |r: bool, s: bool, d: bool| TransFlags { recurse: r, no_save: s, no_deps: d };
    for (mode, label, hint, options) in [
        (Mode::Simple, "R", "Remove only", flags(false, false, false)),
        (Mode::Recursive, "Rs", "Remove + unused deps", flags(true, false, false)),
        (Mode::Full, "Rns", "Remove + deps + configs", flags(true, true, false)),
        (Mode::Force, "Rdd ⚠", "Force (ignore deps!)", flags(false, false, true)),
    ] {
        assert_eq!(mode.label(), label);
        assert_eq!(mode.hint(), hint);
        assert_eq!(mode.flags(), options);
    }
    assert_eq!(SortMode::Name.label(), "Name");
    assert_eq!(SortMode::Size.label(), "Size↓");
    assert_eq!(SortMode::OrphansFirst.label(), "Orphans↑");
}

#[test]
fn two_keys_quit() {
    let mut a = app();
    assert!(matches!(a.handle_key(Key::Char('q'), false), Action::Quit));
    assert!(matches!(a.handle_key(Key::Char('c'), true), Action::Quit));
    assert!(is_stay(&a.handle_key(Key::Char('c'), false)));
    press(&mut a, "/");
    assert!(is_stay(&a.handle_key(Key::Char('q'), false)));
    assert!(matches!(a.handle_key(Key::Char('c'), true), Action::Quit));
    assert_eq!(a.query, "q");
    let mut b = confirming("");
    assert!(matches!(b.handle_key(Key::Char('c'), true), Action::Quit));
    assert!(is_stay(&b.handle_key(Key::Char('q'), false)));
}

#[test]
fn help_closes_on_any_key() {
    for key in [Key::Char('x'), Key::Esc, Key::Other, Key::Char('?')] {
        let mut a = app();
        press(&mut a, "?");
        assert!(matches!(a.screen, Screen::Help));
        assert!(is_stay(&a.handle_key(key, false)));
        assert!(matches!(a.screen, Screen::Browse));
    }
}

#[test]
fn other_keys_do_nothing() {
    let mut a = app();
    let before = snapshot(&a);
    for key in [Key::Enter, Key::Backspace, Key::Other, Key::Char('z'), Key::Char('5')] {
        assert!(is_stay(&a.handle_key(key, false)));
        assert_eq!(snapshot(&a), before);
    }
}

#[test]
fn a_dry_run_needs_marks() {
    let mut a = app();
    assert!(is_stay(&a.handle_key(Key::Char('d'), false)));
    press(&mut a, "3jj ");
    press(&mut a, "k ");
    match a.handle_key(Key::Char('d'), false) {
        Action::DryRun { names, flags } => {
            assert_eq!(names, vec!["bash", "curl"]);
            assert_eq!(flags, Mode::Full.flags());
        }
        other => panic!("{:?}", other),
    }
    assert!(matches!(a.screen, Screen::Browse));
}

#[test]
fn refreshing_is_asked_for() {
    let mut a = app();
    assert!(matches!(a.handle_key(Key::Char('r'), false), Action::Refresh));
}

#[test]
fn a_removal_needs_a_yes() {
    for input in ["", "y", "YES", "yes!", "y es"] {
        let mut a = confirming(input);
        assert!(is_stay(&a.handle_key(Key::Enter, false)));
        assert!(matches!(a.screen, Screen::Confirm { .. }));
    }
    for input in ["yes", " yes", "yes\t ", "\u{a0}yes"] {
        let mut a = confirming(input);
        match a.handle_key(Key::Enter, false) {
            Action::Remove { targets, flags } => {
                assert_eq!(targets, vec!["bash", "curl"]);
                assert_eq!(flags, Mode::Full.flags());
            }
            other => panic!("{:?}", other),
        }
        match &a.screen {
            Screen::Removing { progress, current_pkg, log } => {
                assert_eq!(*progress, 0);
                assert_eq!(current_pkg, "");
                assert_eq!(log, &vec!["Initialising transaction…"]);
            }
            other => panic!("{:?}", other),
        }
    }
}

#[test]
fn the_answer_is_typed() {
    let mut a = confirming("");
    press(&mut a, "yex");
    a.handle_key(Key::Backspace, false);
    press(&mut a, "s");
    match &a.screen {
        Screen::Confirm { input, .. } => assert_eq!(input, "yes"),
        other => panic!("{:?}", other),
    }
    assert!(matches!(a.handle_key(Key::Enter, false), Action::Remove { .. }));
    let mut b = confirming("");
    b.handle_key(Key::Backspace, false);
    b.handle_key(Key::Down, false);
    match &b.screen {
        Screen::Confirm { input, targets, freed, .. } => {
            assert_eq!(input, "");
            assert_eq!(targets.len(), 2);
            assert_eq!(*freed, 100);
        }
        other => panic!("{:?}", other),
    }
}

#[test]
fn a_removal_can_be_cancelled() {
    let mut a = confirming("yes");
    assert!(is_stay(&a.handle_key(Key::Esc, false)));
    assert!(matches!(a.screen, Screen::Browse));
}

#[test]
fn a_removal_ignores_keys() {
    let mut a = app();
    a.begin_removal(vec!["bash".to_string()], Mode::Simple.flags());
    let before = snapshot(&a);
    for key in [Key::Char('q'), Key::Esc, Key::Enter, Key::Char(' '), Key::Down] {
        assert!(is_stay(&a.handle_key(key, false)));
        assert_eq!(snapshot(&a), before);
    }
    assert!(matches!(a.handle_key(Key::Char('c'), true), Action::Quit));
}

#[test]
fn the_confirmation_outside_a_dialog() {
    let mut a = app();
    press(&mut a, "?");
    assert!(is_stay(&a.key_confirm(Key::Enter)));
    assert!(is_stay(&a.key_confirm(Key::Char('x'))));
    assert!(is_stay(&a.key_confirm(Key::Backspace)));
    assert!(matches!(a.screen, Screen::Help));
    assert!(is_stay(&a.key_confirm(Key::Esc)));
    assert!(matches!(a.screen, Screen::Browse));
}

#[test]
fn a_whole_removal() {
    let mut a = app();
    press(&mut a, "j ");
    assert!(matches!(a.handle_key(Key::Char('d'), false), Action::DryRun { .. }));
    let report = WorkerMsg::DryRunOk {
        targets: vec!["bash".to_string()],
        freed: 90,
        warnings: vec!["w".to_string()],
    };
    a.process_message(report, None);
    press(&mut a, "yes");
    match a.handle_key(Key::Enter, false) {
        Action::Remove { targets, flags } => {
            assert_eq!(targets, vec!["bash"]);
            assert_eq!(flags, Mode::Recursive.flags());
        }
        other => panic!("{:?}", other),
    }
    a.process_message(WorkerMsg::Done(Ok(())), Some(vec![pkg("acl", 1, false)]));
    assert!(matches!(a.screen, Screen::Finished { success: true, .. }));
    a.handle_key(Key::Other, false);
    assert!(matches!(a.screen, Screen::Browse));
    assert_eq!(a.filtered, vec![0]);
    assert!(a.marked.is_empty());
}
