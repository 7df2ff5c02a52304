//! What the messages of the worker do.

use apr::app::{App, Screen, WorkerMsg};
use apr::mode::Mode;
use apr::package::{PkgInfo, Reason};

fn pkg(name: &str) -> PkgInfo {
    PkgInfo {
        name: name.to_string(),
        version: "1".to_string(),
        desc: String::new(),
        size: 1,
        reason: Reason::Explicit,
        depends: Vec::new(),
        optdeps: Vec::new(),
        required_by: Vec::new(),
    }
}

fn app() -> App {
    App::new(vec![pkg("a"), pkg("b"), pkg("c")])
}

fn removing() -> App {
    let mut a = app();
    a.begin_removal(vec!["a".to_string()], Mode::Simple.flags());
    a
}

fn log_of(a: &App) -> Vec<String> {
    match &a.screen {
        Screen::Removing { log, .. } => log.clone(),
        other => panic!("{:?}", other),
    }
}

#[test]
fn a_report_opens_the_confirmation() {
    let mut a = app();
    a.mode = Mode::Force;
    let msg = WorkerMsg::DryRunOk {
        targets: vec!["b".to_string(), "a".to_string()],
        freed: 77,
        warnings: vec!["w".to_string()],
    };
    assert!(!msg.wants_reload());
    a.process_message(msg, None);
    match &a.screen {
        Screen::Confirm { targets, freed, warnings, input, flags } => {
            assert_eq!(targets, &vec!["b", "a"]);
            assert_eq!(*freed, 77);
            assert_eq!(warnings, &vec!["w"]);
            assert_eq!(input, "");
            assert_eq!(*flags, Mode::Force.flags());
        }
        other => panic!("{:?}", other),
    }
}

#[test]
fn a_failed_dry_run_is_told() {
    let mut a = app();
    a.process_message(WorkerMsg::DryRunErr("why".to_string()), None);
    match &a.screen {
        Screen::Finished { success, message } => {
            assert!(!success);
            assert_eq!(message, "why");
        }
        other => panic!("{:?}", other),
    }
}

#[test]
fn the_log_keeps_the_latest_lines() {
    let mut a = removing();
    for i in 0..29 {
        a.process_message(WorkerMsg::Log(format!("l{}", i)), None);
    }
    assert_eq!(log_of(&a).len(), 30);
    assert_eq!(log_of(&a)[0], "Initialising transaction…");
    a.process_message(WorkerMsg::Log("last".to_string()), None);
    assert_eq!(log_of(&a).len(), 30);
    assert_eq!(log_of(&a)[0], "l0");
    assert_eq!(log_of(&a)[29], "last");
}

#[test]
fn progress_is_shown() {
    let mut a = removing();
    a.process_message(WorkerMsg::Progress(45, "a".to_string()), None);
    match &a.screen {
        Screen::Removing { progress, current_pkg, log } => {
            assert_eq!(*progress, 45);
            assert_eq!(current_pkg, "a");
            assert_eq!(log.len(), 1);
        }
        other => panic!("{:?}", other),
    }
}

#[test]
fn logs_and_progress_outside_a_removal_are_dropped() {
    let mut a = app();
    a.process_message(WorkerMsg::Log("x".to_string()), None);
    a.process_message(WorkerMsg::Progress(9, "x".to_string()), None);
    assert!(matches!(a.screen, Screen::Browse));
}

#[test]
fn a_success_reloads_the_packages() {
    let mut a = removing();
    a.marked.insert(0);
    a.cursor = 2;
    let msg = WorkerMsg::Done(Ok(()));
    assert!(msg.wants_reload());
    a.process_message(msg, Some(vec![pkg("b"), pkg("c")]));
    assert_eq!(a.pkgs.len(), 2);
    assert!(a.marked.is_empty());
    assert_eq!(a.filtered, vec![0, 1]);
    assert_eq!(a.cursor, 1);
    match &a.screen {
        Screen::Finished { success, message } => {
            assert!(success);
            assert_eq!(message, "Packages removed successfully.");
        }
        other => panic!("{:?}", other),
    }
}

#[test]
fn a_success_without_packages_keeps_them() {
    let mut a = removing();
    a.marked.insert(0);
    a.process_message(WorkerMsg::Done(Ok(())), None);
    assert_eq!(a.pkgs.len(), 3);
    assert!(a.marked.contains(&0));
    assert!(matches!(a.screen, Screen::Finished { success: true, .. }));
}

#[test]
fn a_failed_removal_is_told() {
    let mut a = removing();
    let msg = WorkerMsg::Done(Err("no".to_string()));
    assert!(!msg.wants_reload());
    a.process_message(msg, Some(Vec::new()));
    assert_eq!(a.pkgs.len(), 3);
    match &a.screen {
        Screen::Finished { success, message } => {
            assert!(!success);
            assert_eq!(message, "no");
        }
        other => panic!("{:?}", other),
    }
}

#[test]
fn refreshed_packages_keep_the_marks_that_fit() {
    let mut a = app();
    a.marked.insert(0);
    a.marked.insert(2);
    a.cursor = 2;
    a.process_message(WorkerMsg::Refreshed(vec![pkg("x"), pkg("y")]), None);
    assert_eq!(a.pkgs.len(), 2);
    assert_eq!(a.marked.len(), 1);
    assert!(a.marked.contains(&0));
    assert_eq!(a.filtered, vec![0, 1]);
    assert_eq!(a.cursor, 1);
    assert!(matches!(a.screen, Screen::Browse));
}

#[test]
fn counts_of_the_state() {
    let mut a = app();
    a.pkgs[1].reason = Reason::Depend;
    assert_eq!(a.orphan_count(), 1);
    a.marked.insert(1);
    a.marked.insert(2);
    assert_eq!(a.marked_names(), vec!["b", "c"]);
    assert_eq!(a.marked_size(), 2);
}
