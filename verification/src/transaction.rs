//! The steps of a dry run and of a removal. What is done to the package database
//! is asked for one request at a time, and each reply decides what comes next.

use crate::app::WorkerMsg;
use crate::listing;
use crate::listing::wrapping_sum;
use crate::mode::TransFlags;
use crate::model::MessageModel;
use crate::rounding;
use crate::rounding::percent;
use crate::text;
use crate::text::{push_view, same, starts_with};
use vstd::prelude::*;
use vstd::string::StringExecFns;

verus! {

/// What a transaction is for.
#[derive(Clone, Copy, PartialEq, Eq, Debug, Structural)]
pub enum Job {
    /// To find out what a removal would remove.
    DryRun,
    /// To remove packages.
    Removal,
}

/// What a transaction waits for.
#[derive(Clone, Copy, PartialEq, Eq, Debug, Structural)]
pub enum Stage {
    /// Whether the database is locked.
    Lock,
    /// Whether the database could be opened.
    Open,
    /// Whether the transaction could be started.
    Init,
    /// Whether the package at this place could be added to the transaction.
    Queue(usize),
    /// Whether the transaction could be prepared.
    Prepare,
    /// Which packages the transaction removes.
    Collect,
    /// Whether the transaction could be carried out.
    Commit,
    /// Nothing.
    Ended,
}

/// What a package manager is asked for.
#[derive(Debug)]
pub enum Request {
    /// Whether the database is locked.
    CheckLock,
    /// To open the database.
    Open,
    /// To start a transaction.
    Init(TransFlags),
    /// To find the package of this name and to add it to what is removed.
    Queue(String),
    /// To resolve the dependencies.
    Prepare,
    /// To list what is removed.
    Collect,
    /// To remove it.
    Commit,
    /// Nothing more.
    End,
}

/// What came of adding a package to a transaction.
#[derive(Debug)]
pub enum Queued {
    Added,
    /// There is no such package.
    NotFound,
    /// It cannot be removed.
    Refused(String),
}

/// The reply to a request.
#[derive(Debug)]
pub enum Reply {
    Locked(bool),
    Opened(Result<(), String>),
    Started(Result<(), String>),
    Queued(Queued),
    Prepared(Result<(), String>),
    /// The names and sizes of the packages that are removed.
    Collected(Vec<(String, i64)>),
    Committed(Result<(), String>),
}

/// What follows from a reply: whether the transaction is released, then the
/// messages that are sent, then the next request.
#[derive(Debug)]
pub struct Step {
    pub release: bool,
    pub messages: Vec<WorkerMsg>,
    pub request: Request,
}

/// [`Request`] as a mathematical value.
pub ghost enum RequestModel {
    CheckLock,
    Open,
    Init(TransFlags),
    Queue(Seq<char>),
    Prepare,
    Collect,
    Commit,
    End,
}

/// [`Queued`] as a mathematical value.
pub ghost enum QueuedModel {
    Added,
    NotFound,
    Refused(Seq<char>),
}

/// [`Reply`] as a mathematical value.
pub ghost enum ReplyModel {
    Locked(bool),
    Opened(Result<(), Seq<char>>),
    Started(Result<(), Seq<char>>),
    Queued(QueuedModel),
    Prepared(Result<(), Seq<char>>),
    Collected(Seq<(Seq<char>, i64)>),
    Committed(Result<(), Seq<char>>),
}

/// [`Step`] as a mathematical value.
pub ghost struct StepModel {
    pub release: bool,
    pub messages: Seq<MessageModel>,
    pub request: RequestModel,
}

/// A result without a value, its error as a sequence of characters.
pub open spec fn outcome(r: Result<(), String>) -> Result<(), Seq<char>> {
    match r {
        Ok(_) => Ok(()),
        Err(e) => Err(e@),
    }
}

/// Names and sizes, the names as sequences of characters.
pub open spec fn sized_names(v: Seq<(String, i64)>) -> Seq<(Seq<char>, i64)> {
    v.map_values(|p: (String, i64)| (p.0@, p.1))
}

impl View for Request {
    type V = RequestModel;

    open spec fn view(&self) -> RequestModel {
        match *self {
            Request::CheckLock => RequestModel::CheckLock,
            Request::Open => RequestModel::Open,
            Request::Init(flags) => RequestModel::Init(flags),
            Request::Queue(name) => RequestModel::Queue(name@),
            Request::Prepare => RequestModel::Prepare,
            Request::Collect => RequestModel::Collect,
            Request::Commit => RequestModel::Commit,
            Request::End => RequestModel::End,
        }
    }
}

impl View for Reply {
    type V = ReplyModel;

    open spec fn view(&self) -> ReplyModel {
        match *self {
            Reply::Locked(b) => ReplyModel::Locked(b),
            Reply::Opened(r) => ReplyModel::Opened(outcome(r)),
            Reply::Started(r) => ReplyModel::Started(outcome(r)),
            Reply::Queued(Queued::Added) => ReplyModel::Queued(QueuedModel::Added),
            Reply::Queued(Queued::NotFound) => ReplyModel::Queued(QueuedModel::NotFound),
            Reply::Queued(Queued::Refused(e)) => ReplyModel::Queued(QueuedModel::Refused(e@)),
            Reply::Prepared(r) => ReplyModel::Prepared(outcome(r)),
            Reply::Collected(v) => ReplyModel::Collected(sized_names(v@)),
            Reply::Committed(r) => ReplyModel::Committed(outcome(r)),
        }
    }
}

impl View for Step {
    type V = StepModel;

    open spec fn view(&self) -> StepModel {
        StepModel {
            release: self.release,
            messages: text::views(self.messages@),
            request: self.request@,
        }
    }
}

/// Whether the system needs the package of this name.
pub open spec fn critical(name: Seq<char>) -> bool {
    ||| name == "glibc"@
    ||| name == "systemd"@
    ||| name == "pacman"@
    ||| name == "linux"@
    ||| name == "base"@
    ||| name == "bash"@
    ||| name == "coreutils"@
    ||| name == "gcc-libs"@
    ||| name == "glib2"@
    ||| name == "dbus"@
    ||| name == "util-linux"@
    ||| name == "shadow"@
    ||| name == "pam"@
    ||| name == "openssl"@
    ||| name == "cryptsetup"@
    ||| name == "lvm2"@
    ||| name == "e2fsprogs"@
    ||| name == "btrfs-progs"@
    ||| name == "grub"@
    ||| name == "efibootmgr"@
    ||| name == "sudo"@
    ||| name == "polkit"@
    ||| name == "networkmanager"@
    ||| name == "systemd-libs"@
    ||| name == "libsystemd"@
    ||| name == "iptables"@
    ||| name == "nftables"@
    ||| name == "iproute2"@
    ||| name == "procps-ng"@
    ||| name == "psmisc"@
    ||| name == "less"@
    ||| name == "grep"@
    ||| name == "gawk"@
    ||| name == "sed"@
    ||| name == "findutils"@
    ||| name == "tar"@
    ||| name == "gzip"@
    ||| name == "xz"@
    ||| name == "zstd"@
    ||| name == "mkinitcpio"@
    ||| name == "filesystem"@
    ||| name == "tzdata"@
    ||| "linux-"@.is_prefix_of(name) && !"linux-headers"@.is_prefix_of(name)
}

/// Whether the system needs the package of this name.
pub fn is_critical(name: &str) -> (r: bool)
    ensures
        r == critical(name@),
{
    same(name, "glibc")
        || same(name, "systemd")
        || same(name, "pacman")
        || same(name, "linux")
        || same(name, "base")
        || same(name, "bash")
        || same(name, "coreutils")
        || same(name, "gcc-libs")
        || same(name, "glib2")
        || same(name, "dbus")
        || same(name, "util-linux")
        || same(name, "shadow")
        || same(name, "pam")
        || same(name, "openssl")
        || same(name, "cryptsetup")
        || same(name, "lvm2")
        || same(name, "e2fsprogs")
        || same(name, "btrfs-progs")
        || same(name, "grub")
        || same(name, "efibootmgr")
        || same(name, "sudo")
        || same(name, "polkit")
        || same(name, "networkmanager")
        || same(name, "systemd-libs")
        || same(name, "libsystemd")
        || same(name, "iptables")
        || same(name, "nftables")
        || same(name, "iproute2")
        || same(name, "procps-ng")
        || same(name, "psmisc")
        || same(name, "less")
        || same(name, "grep")
        || same(name, "gawk")
        || same(name, "sed")
        || same(name, "findutils")
        || same(name, "tar")
        || same(name, "gzip")
        || same(name, "xz")
        || same(name, "zstd")
        || same(name, "mkinitcpio")
        || same(name, "filesystem")
        || same(name, "tzdata")
        || (starts_with(name, "linux-") && !starts_with(name, "linux-headers"))
}

/// The warning that a package is needed by the system.
pub open spec fn warning(name: Seq<char>) -> Seq<char> {
    name + "  is a critical system package!"@
}

/// The warnings that the removal of `targets` gives.
pub open spec fn warnings_of(targets: Seq<Seq<char>>) -> Seq<Seq<char>> {
    targets.filter(|n: Seq<char>| critical(n)).map_values(|n: Seq<char>| warning(n))
}

/// The sizes together.
pub open spec fn sizes_sum(list: Seq<(Seq<char>, i64)>) -> int
    decreases list.len(),
{
    if list.len() == 0 {
        0
    } else {
        sizes_sum(list.drop_last()) + list.last().1
    }
}

/// What a dry run reports that has found `list` to be removed: the names, the
/// sizes together, without the bits above the 64th, and the warnings.
pub open spec fn dry_run_report(list: Seq<(Seq<char>, i64)>) -> MessageModel {
    let targets = list.map_values(|p: (Seq<char>, i64)| p.0);
    MessageModel::DryRunOk {
        targets,
        freed: listing::wrapped(sizes_sum(list)) as i64,
        warnings: warnings_of(targets),
    }
}

/// What a dry run reports that has found `list` to be removed.
pub fn report(list: &Vec<(String, i64)>) -> (r: WorkerMsg)
    ensures
        r@ == dry_run_report(sized_names(list@)),
{
    let ghost all = sized_names(list@);
    let ghost names = all.map_values(|p: (Seq<char>, i64)| p.0);
    let ghost pick = |n: Seq<char>| critical(n);
    let ghost warn = |n: Seq<char>| warning(n);
    let mut targets: Vec<String> = Vec::new();
    let mut warnings: Vec<String> = Vec::new();
    let mut freed: i64 = 0;
    let mut i: usize = 0;
    proof {
        reveal(Seq::filter);
        assert(text::views(targets@) =~= names.take(0));
        assert(text::views(warnings@) =~= names.take(0).filter(pick).map_values(warn));
    }
    while i < list.len()
        invariant
            i <= list@.len(),
            all == sized_names(list@),
            names == all.map_values(|p: (Seq<char>, i64)| p.0),
            pick == |n: Seq<char>| critical(n),
            warn == |n: Seq<char>| warning(n),
            text::views(targets@) == names.take(i as int),
            text::views(warnings@) == names.take(i as int).filter(pick).map_values(warn),
            freed == listing::wrapped(sizes_sum(all.take(i as int))),
        decreases list@.len() - i,
    {
        let name = list[i].0.clone();
        proof {
            assert(all.take(i as int + 1).drop_last() =~= all.take(i as int));
            assert(names.take(i as int + 1) =~= names.take(i as int).push(name@));
            listing::lemma_filter_push(names.take(i as int), name@, pick);
            let picked = names.take(i as int).filter(pick);
            assert(picked.push(name@).map_values(warn) =~= picked.map_values(warn).push(
                warning(name@),
            ));
            listing::sums_can_wrap_early(
                sizes_sum(all.take(i as int)),
                list@[i as int].1 as int,
            );
        }
        if is_critical(name.as_str()) {
            push_view(
                &mut warnings,
                name.clone().concat("  is a critical system package!"),
            );
        }
        freed = wrapping_sum(freed, list[i].1);
        push_view(&mut targets, name);
        i += 1;
    }
    proof {
        assert(all.take(all.len() as int) =~= all);
        assert(names.take(names.len() as int) =~= names);
    }
    WorkerMsg::DryRunOk { targets, freed, warnings }
}

/// The text that tells that the database is locked.
pub open spec fn locked_text() -> Seq<char> {
    "Database is locked (/var/lib/pacman/db.lck).\nAnother package manager may be running."@
}

/// The messages of a removal that has come to the package at place `k`.
pub open spec fn progress_messages(names: Seq<Seq<char>>, k: nat) -> Seq<MessageModel>
    decreases k,
{
    if k == 0 {
        seq![MessageModel::Log("Committing transaction…"@)]
    } else {
        let i = (k - 1) as nat;
        let name = names[i as int];
        progress_messages(names, i).push(
            MessageModel::Progress(rounding::progress_percent(i, names.len()) as u8, name),
        ).push(MessageModel::Log("Removing "@ + name + "…"@))
    }
}

fn progress_of(names: &Vec<String>) -> (r: Vec<WorkerMsg>)
    ensures
        text::views(r@) == progress_messages(text::views(names@), names@.len()),
{
    let ghost all = text::views(names@);
    let mut r: Vec<WorkerMsg> = Vec::new();
    push_view(&mut r, WorkerMsg::Log("Committing transaction…".to_owned()));
    assert(text::views(r@) =~= progress_messages(all, 0));
    let mut i: usize = 0;
    while i < names.len()
        invariant
            i <= names@.len(),
            all == text::views(names@),
            text::views(r@) == progress_messages(all, i as nat),
        decreases names@.len() - i,
    {
        push_view(&mut r, WorkerMsg::Progress(percent(i, names.len()), names[i].clone()));
        let line = "Removing ".to_owned().concat(names[i].as_str()).concat("…");
        push_view(&mut r, WorkerMsg::Log(line));
        i += 1;
    }
    r
}

/// A transaction as a mathematical value.
pub ghost struct TransactionModel {
    pub job: Job,
    pub names: Seq<Seq<char>>,
    pub flags: TransFlags,
    pub stage: Stage,
}

impl TransactionModel {
    /// Whether `reply` is one to the request that was made last.
    pub open spec fn awaits(self, reply: ReplyModel) -> bool {
        match self.stage {
            Stage::Lock => reply is Locked,
            Stage::Open => reply is Opened,
            Stage::Init => reply is Started,
            Stage::Queue(k) => k < self.names.len() && reply is Queued,
            Stage::Prepare => reply is Prepared,
            Stage::Collect => reply is Collected,
            Stage::Commit => reply is Committed,
            Stage::Ended => false,
        }
    }

    /// Goes on to `stage` with `request`, after `messages`.
    pub open spec fn on_to(
        self,
        stage: Stage,
        messages: Seq<MessageModel>,
        request: RequestModel,
    ) -> (TransactionModel, StepModel) {
        (TransactionModel { stage, ..self }, StepModel { release: false, messages, request })
    }

    /// Ends with `messages`, after a release or not.
    pub open spec fn ended(self, release: bool, messages: Seq<MessageModel>) -> (
        TransactionModel,
        StepModel,
    ) {
        (
            TransactionModel { stage: Stage::Ended, ..self },
            StepModel { release, messages, request: RequestModel::End },
        )
    }

    /// The message that the job has failed.
    pub open spec fn failure(self, message: Seq<char>) -> Seq<MessageModel> {
        match self.job {
            Job::DryRun => seq![MessageModel::DryRunErr(message)],
            Job::Removal => seq![MessageModel::Done(Err(message))],
        }
    }

    /// Goes on with the package at place `k`, or with the dependencies where
    /// there are no more packages.
    pub open spec fn queue_from(self, k: int) -> (TransactionModel, StepModel) {
        if k < self.names.len() {
            self.on_to(
                Stage::Queue(k as usize),
                Seq::empty(),
                RequestModel::Queue(self.names[k]),
            )
        } else {
            self.on_to(
                Stage::Prepare,
                match self.job {
                    Job::DryRun => Seq::empty(),
                    Job::Removal => seq![MessageModel::Log("Resolving dependencies…"@)],
                },
                RequestModel::Prepare,
            )
        }
    }

    /// What follows from `reply`. A removal that cannot open the database, start
    /// the transaction or add a package to it ends without a word.
    pub open spec fn advance(self, reply: ReplyModel) -> (TransactionModel, StepModel) {
        match reply {
            ReplyModel::Locked(true) => self.ended(false, self.failure(locked_text())),
            ReplyModel::Locked(false) => self.on_to(
                Stage::Open,
                Seq::empty(),
                RequestModel::Open,
            ),
            ReplyModel::Opened(Ok(_)) => self.on_to(
                Stage::Init,
                Seq::empty(),
                RequestModel::Init(self.flags),
            ),
            ReplyModel::Opened(Err(e)) => match self.job {
                Job::DryRun => self.ended(false, self.failure("alpm init: "@ + e)),
                Job::Removal => self.ended(false, Seq::empty()),
            },
            ReplyModel::Started(Ok(_)) => self.queue_from(0),
            ReplyModel::Started(Err(e)) => match self.job {
                Job::DryRun => self.ended(false, self.failure("trans_init: "@ + e)),
                Job::Removal => self.ended(false, Seq::empty()),
            },
            ReplyModel::Queued(queued) => {
                let k = self.stage->Queue_0;
                let name = self.names[k as int];
                match queued {
                    QueuedModel::Added => self.queue_from(k + 1),
                    QueuedModel::NotFound => self.ended(
                        true,
                        self.failure("Package not found: "@ + name),
                    ),
                    QueuedModel::Refused(e) => match self.job {
                        Job::DryRun => self.ended(
                            true,
                            self.failure("add '"@ + name + "': "@ + e),
                        ),
                        Job::Removal => self.ended(false, Seq::empty()),
                    },
                }
            },
            ReplyModel::Prepared(Ok(_)) => match self.job {
                Job::DryRun => self.on_to(Stage::Collect, Seq::empty(), RequestModel::Collect),
                Job::Removal => self.on_to(
                    Stage::Commit,
                    progress_messages(self.names, self.names.len()),
                    RequestModel::Commit,
                ),
            },
            ReplyModel::Prepared(Err(e)) => self.ended(
                true,
                self.failure(
                    match self.job {
                        Job::DryRun => "Dependency resolution failed:\n"@ + e,
                        Job::Removal => "Prepare failed: "@ + e,
                    },
                ),
            ),
            ReplyModel::Collected(list) => self.ended(true, seq![dry_run_report(list)]),
            ReplyModel::Committed(Ok(_)) => self.ended(
                true,
                seq![
                    MessageModel::Progress(100, Seq::empty()),
                    MessageModel::Log("Done."@),
                    MessageModel::Done(Ok(())),
                ],
            ),
            ReplyModel::Committed(Err(e)) => self.ended(
                true,
                seq![MessageModel::Done(Err("Commit failed: "@ + e))],
            ),
        }
    }
}

/// A transaction on the package database.
#[derive(Debug)]
pub struct Transaction {
    pub job: Job,
    /// The names of the packages that are to be removed.
    pub names: Vec<String>,
    pub flags: TransFlags,
    pub stage: Stage,
}

impl View for Transaction {
    type V = TransactionModel;

    open spec fn view(&self) -> TransactionModel {
        TransactionModel {
            job: self.job,
            names: text::views(self.names@),
            flags: self.flags,
            stage: self.stage,
        }
    }
}

impl Transaction {
    /// A transaction at its start, and the first request.
    pub fn new(job: Job, names: Vec<String>, flags: TransFlags) -> (r: (Transaction, Request))
        ensures
            r.0@ == (TransactionModel {
                job,
                names: text::views(names@),
                flags,
                stage: Stage::Lock,
            }),
            r.1@ == RequestModel::CheckLock,
    {
        (Transaction { job, names, flags, stage: Stage::Lock }, Request::CheckLock)
    }

    fn on_to(&mut self, stage: Stage, messages: Vec<WorkerMsg>, request: Request) -> (r: Step)
        ensures
            (final(self)@, r@) == old(self)@.on_to(
                stage,
                text::views(messages@),
                request@,
            ),
    {
        self.stage = stage;
        Step { release: false, messages, request }
    }

    fn ended(&mut self, release: bool, messages: Vec<WorkerMsg>) -> (r: Step)
        ensures
            (final(self)@, r@) == old(self)@.ended(release, text::views(messages@)),
    {
        self.stage = Stage::Ended;
        Step { release, messages, request: Request::End }
    }

    fn failure(&self, message: String) -> (r: Vec<WorkerMsg>)
        ensures
            text::views(r@) == self@.failure(message@),
    {
        match self.job {
            Job::DryRun => one(WorkerMsg::DryRunErr(message)),
            Job::Removal => one(WorkerMsg::Done(Err(message))),
        }
    }

    /// Ends a dry run with the message that it has failed, and a removal without
    /// a word.
    fn ended_unless_removal(&mut self, release: bool, message: String) -> (r: Step)
        ensures
            (final(self)@, r@) == match old(self)@.job {
                Job::DryRun => old(self)@.ended(release, old(self)@.failure(message@)),
                Job::Removal => old(self)@.ended(false, Seq::empty()),
            },
    {
        match self.job {
            Job::DryRun => {
                let messages = self.failure(message);
                self.ended(release, messages)
            },
            Job::Removal => self.ended(false, none()),
        }
    }

    fn queue_from(&mut self, k: usize) -> (r: Step)
        ensures
            (final(self)@, r@) == old(self)@.queue_from(k as int),
    {
        if k < self.names.len() {
            let name = self.names[k].clone();
            self.on_to(Stage::Queue(k), none(), Request::Queue(name))
        } else {
            let messages = match self.job {
                Job::DryRun => none(),
                Job::Removal => one(WorkerMsg::Log("Resolving dependencies…".to_owned())),
            };
            self.on_to(Stage::Prepare, messages, Request::Prepare)
        }
    }

    /// Takes the reply to the last request, and says what follows from it.
    pub fn advance(&mut self, reply: Reply) -> (r: Step)
        requires
            old(self)@.awaits(reply@),
        ensures
            (final(self)@, r@) == old(self)@.advance(reply@),
    {
        match reply {
            Reply::Locked(locked) => {
                if locked {
                    let messages = self.failure(
                        "Database is locked (/var/lib/pacman/db.lck).\nAnother package manager may be running.".to_owned(),
                    );
                    self.ended(false, messages)
                } else {
                    self.on_to(Stage::Open, none(), Request::Open)
                }
            },
            Reply::Opened(Ok(_)) => {
                let flags = self.flags;
                self.on_to(Stage::Init, none(), Request::Init(flags))
            },
            Reply::Opened(Err(e)) => self.ended_unless_removal(
                false,
                "alpm init: ".to_owned().concat(e.as_str()),
            ),
            Reply::Started(Ok(_)) => self.queue_from(0),
            Reply::Started(Err(e)) => self.ended_unless_removal(
                false,
                "trans_init: ".to_owned().concat(e.as_str()),
            ),
            Reply::Queued(queued) => {
                let k: usize = match self.stage {
                    Stage::Queue(k) => k,
                    _ => 0,
                };
                let name = self.names[k].clone();
                assert(k < self.names.len());
                match queued {
                    Queued::Added => self.queue_from(k + 1),
                    Queued::NotFound => {
                        let messages = self.failure(
                            "Package not found: ".to_owned().concat(name.as_str()),
                        );
                        self.ended(true, messages)
                    },
                    Queued::Refused(e) => self.ended_unless_removal(
                        true,
                        "add '".to_owned().concat(name.as_str()).concat("': ").concat(e.as_str()),
                    ),
                }
            },
            Reply::Prepared(Ok(_)) => match self.job {
                Job::DryRun => self.on_to(Stage::Collect, none(), Request::Collect),
                Job::Removal => {
                    let messages = progress_of(&self.names);
                    self.on_to(Stage::Commit, messages, Request::Commit)
                },
            },
            Reply::Prepared(Err(e)) => {
                let text = match self.job {
                    Job::DryRun => "Dependency resolution failed:\n",
                    Job::Removal => "Prepare failed: ",
                };
                let messages = self.failure(text.to_owned().concat(e.as_str()));
                self.ended(true, messages)
            },
            Reply::Collected(list) => self.ended(true, one(report(&list))),
            Reply::Committed(Ok(_)) => {
                let mut messages: Vec<WorkerMsg> = Vec::new();
                push_view(&mut messages, WorkerMsg::Progress(100, String::new()));
                push_view(&mut messages, WorkerMsg::Log("Done.".to_owned()));
                push_view(&mut messages, WorkerMsg::Done(Ok(())));
                assert(text::views(messages@) =~= seq![
                    MessageModel::Progress(100, Seq::empty()),
                    MessageModel::Log("Done."@),
                    MessageModel::Done(Ok(())),
                ]);
                self.ended(true, messages)
            },
            Reply::Committed(Err(e)) => self.ended(
                true,
                one(WorkerMsg::Done(Err("Commit failed: ".to_owned().concat(e.as_str())))),
            ),
        }
    }
}

fn none() -> (r: Vec<WorkerMsg>)
    ensures
        text::views(r@) == Seq::<MessageModel>::empty(),
{
    let r: Vec<WorkerMsg> = Vec::new();
    assert(text::views(r@) =~= Seq::<MessageModel>::empty());
    r
}

fn one(msg: WorkerMsg) -> (r: Vec<WorkerMsg>)
    ensures
        text::views(r@) == seq![msg@],
{
    let mut r: Vec<WorkerMsg> = Vec::new();
    push_view(&mut r, msg);
    assert(text::views(r@) =~= seq![msg@]);
    r
}

/// What is sent and received is taken as it is: nothing of it is left out.
pub proof fn replies_are_taken_as_they_are(
    ok: Result<(), String>,
    e: String,
    list: Vec<(String, i64)>,
    name: String,
    locked: bool,
)
    requires
        ok is Ok,
    ensures
        Reply::Locked(locked)@ == ReplyModel::Locked(locked),
        Reply::Opened(ok)@ == ReplyModel::Opened(Ok(())),
        Reply::Opened(Err(e))@ == ReplyModel::Opened(Err(e@)),
        Reply::Started(ok)@ == ReplyModel::Started(Ok(())),
        Reply::Started(Err(e))@ == ReplyModel::Started(Err(e@)),
        Reply::Queued(Queued::Added)@ == ReplyModel::Queued(QueuedModel::Added),
        Reply::Queued(Queued::NotFound)@ == ReplyModel::Queued(QueuedModel::NotFound),
        Reply::Queued(Queued::Refused(e))@ == ReplyModel::Queued(QueuedModel::Refused(e@)),
        Reply::Prepared(ok)@ == ReplyModel::Prepared(Ok(())),
        Reply::Prepared(Err(e))@ == ReplyModel::Prepared(Err(e@)),
        Reply::Committed(ok)@ == ReplyModel::Committed(Ok(())),
        Reply::Committed(Err(e))@ == ReplyModel::Committed(Err(e@)),
        Reply::Collected(list)@ matches ReplyModel::Collected(l) && l.len() == list@.len()
            && forall|k: int|
            0 <= k < l.len() ==> #[trigger] l[k] == (list@[k].0@, list@[k].1),
        sized_names(list@).len() == list@.len(),
        forall|k: int|
            0 <= k < list@.len() ==> #[trigger] sized_names(list@)[k] == (
                list@[k].0@,
                list@[k].1,
            ),
        Request::Queue(name)@ == RequestModel::Queue(name@),
{
}

} // verus!
