//! Dry runs and removals, step by step.

use apr::app::WorkerMsg;
use apr::mode::Mode;
use apr::transaction::{is_critical, report, Job, Queued, Reply, Request, Stage, Step, Transaction};

fn names(list: &[&str]) -> Vec<String> {
    list.iter().map(|s| s.to_string()).collect()
}

fn begin(job: Job) -> Transaction {
    let (t, request) = Transaction::new(job, names(&["one", "two"]), Mode::Full.flags());
    assert!(matches!(request, Request::CheckLock));
    t
}

fn err(s: &str) -> Result<(), String> {
    Err(s.to_string())
}

fn run(t: &mut Transaction, replies: Vec<Reply>) -> Step {
    let mut last = Step { release: false, messages: Vec::new(), request: Request::CheckLock };
    for r in replies {
        assert!(!last.release);
        last = t.advance(r);
    }
    last
}

fn started() -> Vec<Reply> {
    vec![Reply::Locked(false), Reply::Opened(Ok(())), Reply::Started(Ok(()))]
}

fn queued() -> Vec<Reply> {
    let mut v = started();
    v.push(Reply::Queued(Queued::Added));
    v.push(Reply::Queued(Queued::Added));
    v
}

fn failure(step: &Step) -> String {
    assert!(matches!(step.request, Request::End));
    assert_eq!(step.messages.len(), 1);
    match &step.messages[0] {
        WorkerMsg::DryRunErr(e) => e.clone(),
        WorkerMsg::Done(Err(e)) => e.clone(),
        other => panic!("{:?}", other),
    }
}

#[test]
fn requests_come_in_order() {
    for job in [Job::DryRun, Job::Removal] {
        let mut t = begin(job);
        assert!(matches!(t.advance(Reply::Locked(false)).request, Request::Open));
        match t.advance(Reply::Opened(Ok(()))).request {
            Request::Init(flags) => assert_eq!(flags, Mode::Full.flags()),
            other => panic!("{:?}", other),
        }
        match t.advance(Reply::Started(Ok(()))).request {
            Request::Queue(name) => assert_eq!(name, "one"),
            other => panic!("{:?}", other),
        }
        match t.advance(Reply::Queued(Queued::Added)).request {
            Request::Queue(name) => assert_eq!(name, "two"),
            other => panic!("{:?}", other),
        }
        assert!(matches!(t.advance(Reply::Queued(Queued::Added)).request, Request::Prepare));
        let last = t.advance(Reply::Prepared(Ok(())));
        match job {
            Job::DryRun => assert!(matches!(last.request, Request::Collect)),
            Job::Removal => assert!(matches!(last.request, Request::Commit)),
        }
    }
}

#[test]
fn a_lock_ends_both() {
    let text =
        "Database is locked (/var/lib/pacman/db.lck).\nAnother package manager may be running.";
    let mut t = begin(Job::DryRun);
    let step = t.advance(Reply::Locked(true));
    assert_eq!(failure(&step), text);
    assert!(matches!(step.messages[0], WorkerMsg::DryRunErr(_)));
    assert!(!step.release);
    assert_eq!(t.stage, Stage::Ended);
    let mut t = begin(Job::Removal);
    let step = t.advance(Reply::Locked(true));
    assert_eq!(failure(&step), text);
    assert!(matches!(step.messages[0], WorkerMsg::Done(Err(_))));
}

#[test]
fn a_dry_run_tells_each_failure() {
    let mut t = begin(Job::DryRun);
    let step = run(&mut t, vec![Reply::Locked(false), Reply::Opened(err("gone"))]);
    assert_eq!(failure(&step), "alpm init: gone");
    assert!(!step.release);

    let mut t = begin(Job::DryRun);
    let step = run(
        &mut t,
        vec![Reply::Locked(false), Reply::Opened(Ok(())), Reply::Started(err("busy"))],
    );
    assert_eq!(failure(&step), "trans_init: busy");
    assert!(!step.release);

    let mut t = begin(Job::DryRun);
    let mut replies = started();
    replies.push(Reply::Queued(Queued::Added));
    replies.push(Reply::Queued(Queued::NotFound));
    let step = run(&mut t, replies);
    assert_eq!(failure(&step), "Package not found: two");
    assert!(step.release);

    let mut t = begin(Job::DryRun);
    let mut replies = started();
    replies.push(Reply::Queued(Queued::Refused("held".to_string())));
    let step = run(&mut t, replies);
    assert_eq!(failure(&step), "add 'one': held");
    assert!(step.release);

    let mut t = begin(Job::DryRun);
    let mut replies = queued();
    replies.push(Reply::Prepared(err("conflict")));
    let step = run(&mut t, replies);
    assert_eq!(failure(&step), "Dependency resolution failed:\nconflict");
    assert!(step.release);
}

#[test]
fn a_dry_run_reports_what_it_found() {
    let mut t = begin(Job::DryRun);
    let mut replies = queued();
    replies.push(Reply::Prepared(Ok(())));
    replies.push(Reply::Collected(vec![
        ("one".to_string(), 10),
        ("linux-lts".to_string(), 200),
        ("two".to_string(), 5),
    ]));
    let step = run(&mut t, replies);
    assert!(step.release);
    assert!(matches!(step.request, Request::End));
    assert_eq!(step.messages.len(), 1);
    match &step.messages[0] {
        WorkerMsg::DryRunOk { targets, freed, warnings } => {
            assert_eq!(targets, &vec!["one", "linux-lts", "two"]);
            assert_eq!(*freed, 215);
            assert_eq!(warnings, &vec!["linux-lts  is a critical system package!"]);
        }
        other => panic!("{:?}", other),
    }
}

#[test]
fn a_removal_is_silent_about_early_failures() {
    for tail in [
        vec![Reply::Locked(false), Reply::Opened(err("gone"))],
        vec![Reply::Locked(false), Reply::Opened(Ok(())), Reply::Started(err("busy"))],
        {
            let mut v = started();
            v.push(Reply::Queued(Queued::Refused("held".to_string())));
            v
        },
    ] {
        let mut t = begin(Job::Removal);
        let step = run(&mut t, tail);
        assert!(step.messages.is_empty());
        assert!(!step.release);
        assert!(matches!(step.request, Request::End));
    }
}

#[test]
fn a_removal_tells_later_failures() {
    let mut t = begin(Job::Removal);
    let mut replies = started();
    replies.push(Reply::Queued(Queued::NotFound));
    let step = run(&mut t, replies);
    assert_eq!(failure(&step), "Package not found: one");
    assert!(step.release);

    let mut t = begin(Job::Removal);
    let mut replies = queued();
    replies.push(Reply::Prepared(err("conflict")));
    let step = run(&mut t, replies);
    assert_eq!(failure(&step), "Prepare failed: conflict");
    assert!(step.release);

    let mut t = begin(Job::Removal);
    let mut replies = queued();
    replies.push(Reply::Prepared(Ok(())));
    replies.push(Reply::Committed(err("disk")));
    let step = run(&mut t, replies);
    assert_eq!(failure(&step), "Commit failed: disk");
    assert!(step.release);
}

#[test]
fn a_removal_tells_its_progress() {
    let mut t = begin(Job::Removal);
    let step = run(&mut t, queued());
    assert_eq!(step.messages.len(), 1);
    match &step.messages[0] {
        WorkerMsg::Log(l) => assert_eq!(l, "Resolving dependencies…"),
        other => panic!("{:?}", other),
    }
    let step = t.advance(Reply::Prepared(Ok(())));
    assert!(matches!(step.request, Request::Commit));
    assert!(!step.release);
    let told: Vec<String> = step.messages.iter().map(|m| format!("{:?}", m)).collect();
    assert_eq!(
        told,
        vec![
            "Log(\"Committing transaction…\")",
            "Progress(0, \"one\")",
            "Log(\"Removing one…\")",
            "Progress(45, \"two\")",
            "Log(\"Removing two…\")",
        ]
    );
    let step = t.advance(Reply::Committed(Ok(())));
    assert!(step.release);
    let told: Vec<String> = step.messages.iter().map(|m| format!("{:?}", m)).collect();
    assert_eq!(told, vec!["Progress(100, \"\")", "Log(\"Done.\")", "Done(Ok(()))"]);
    assert_eq!(t.stage, Stage::Ended);
}

#[test]
fn a_transaction_without_packages() {
    let (mut t, _) = Transaction::new(Job::Removal, Vec::new(), Mode::Simple.flags());
    let step = run(&mut t, started());
    assert!(matches!(step.request, Request::Prepare));
    let step = t.advance(Reply::Prepared(Ok(())));
    assert_eq!(step.messages.len(), 1);
    let (mut d, _) = Transaction::new(Job::DryRun, Vec::new(), Mode::Simple.flags());
    let step = run(&mut d, started());
    assert!(step.messages.is_empty());
    assert!(matches!(step.request, Request::Prepare));
}

#[test]
fn critical_packages() {
    for name in [
        "glibc", "systemd", "pacman", "linux", "base", "bash", "coreutils", "gcc-libs", "glib2",
        "dbus", "util-linux", "shadow", "pam", "openssl", "cryptsetup", "lvm2", "e2fsprogs",
        "btrfs-progs", "grub", "efibootmgr", "sudo", "polkit", "networkmanager", "systemd-libs",
        "libsystemd", "iptables", "nftables", "iproute2", "procps-ng", "psmisc", "less", "grep",
        "gawk", "sed", "findutils", "tar", "gzip", "xz", "zstd", "mkinitcpio", "filesystem",
        "tzdata", "linux-lts", "linux-", "linux-zen-headers",
    ] {
        assert!(is_critical(name), "{}", name);
    }
    for name in ["", "Glibc", "glibc ", "vim", "linux-headers", "linux-headers-lts", "linuxx"] {
        assert!(!is_critical(name), "{}", name);
    }
}

#[test]
fn reports_tell_what_is_freed() {
    let list = vec![("a".to_string(), i64::MAX), ("b".to_string(), 1), ("sed".to_string(), 0)];
    match report(&list) {
        WorkerMsg::DryRunOk { targets, freed, warnings } => {
            assert_eq!(targets, vec!["a", "b", "sed"]);
            assert_eq!(freed, i64::MIN);
            assert_eq!(warnings, vec!["sed  is a critical system package!"]);
        }
        other => panic!("{:?}", other),
    }
    match report(&Vec::new()) {
        WorkerMsg::DryRunOk { targets, freed, warnings } => {
            assert!(targets.is_empty() && warnings.is_empty());
            assert_eq!(freed, 0);
        }
        other => panic!("{:?}", other),
    }
}
