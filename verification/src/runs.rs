//! What holds of a transaction from its start to its end, whatever the replies.

use crate::mode::TransFlags;
use crate::model::MessageModel;
use crate::rounding;
use crate::transaction;
use crate::transaction::{
    Job, QueuedModel, ReplyModel, RequestModel, Stage, StepModel, TransactionModel,
};
use vstd::prelude::*;

verus! {

/// A transaction at its start.
pub open spec fn start(job: Job, names: Seq<Seq<char>>, flags: TransFlags) -> TransactionModel {
    TransactionModel { job, names, flags, stage: Stage::Lock }
}

/// The transaction after `replies`.
pub open spec fn state(t: TransactionModel, replies: Seq<ReplyModel>) -> TransactionModel
    decreases replies.len(),
{
    if replies.len() == 0 {
        t
    } else {
        state(t, replies.drop_last()).advance(replies.last()).0
    }
}

/// What follows from reply `i`.
pub open spec fn step(t: TransactionModel, replies: Seq<ReplyModel>, i: int) -> StepModel {
    state(t, replies.take(i)).advance(replies[i]).1
}

/// Whether each of `replies` is one to the request before it.
pub open spec fn answered(t: TransactionModel, replies: Seq<ReplyModel>) -> bool {
    forall|i: int|
        0 <= i < replies.len() ==> #[trigger] state(t, replies.take(i)).awaits(replies[i])
}

/// What a transaction of `n` packages waits for after `i` replies, none of which
/// has ended it.
pub open spec fn due(job: Job, n: nat, i: int) -> Stage {
    if i == 0 {
        Stage::Lock
    } else if i == 1 {
        Stage::Open
    } else if i == 2 {
        Stage::Init
    } else if i < n + 3 {
        Stage::Queue((i - 3) as usize)
    } else if i == n + 3 {
        Stage::Prepare
    } else {
        match job {
            Job::DryRun => Stage::Collect,
            Job::Removal => Stage::Commit,
        }
    }
}

/// Whether a reply lets a transaction go on.
pub open spec fn favourable(reply: ReplyModel) -> bool {
    match reply {
        ReplyModel::Locked(locked) => !locked,
        ReplyModel::Opened(r) => r is Ok,
        ReplyModel::Started(r) => r is Ok,
        ReplyModel::Queued(queued) => queued is Added,
        ReplyModel::Prepared(r) => r is Ok,
        ReplyModel::Collected(_) => false,
        ReplyModel::Committed(_) => false,
    }
}

/// What comes after reply `i`, where it is favourable.
pub open spec fn next_request(
    job: Job,
    names: Seq<Seq<char>>,
    flags: TransFlags,
    i: int,
) -> RequestModel {
    if i == 0 {
        RequestModel::Open
    } else if i == 1 {
        RequestModel::Init(flags)
    } else if i < names.len() + 2 {
        RequestModel::Queue(names[i - 2])
    } else if i == names.len() + 2 {
        RequestModel::Prepare
    } else {
        match job {
            Job::DryRun => RequestModel::Collect,
            Job::Removal => RequestModel::Commit,
        }
    }
}

/// The transaction after `i` favourable replies.
pub open spec fn on_time(
    job: Job,
    names: Seq<Seq<char>>,
    flags: TransFlags,
    i: int,
) -> TransactionModel {
    TransactionModel { job, names, flags, stage: due(job, names.len(), i) }
}

proof fn lemma_advance(
    job: Job,
    names: Seq<Seq<char>>,
    flags: TransFlags,
    i: int,
    reply: ReplyModel,
)
    requires
        names.len() <= usize::MAX,
        0 <= i <= names.len() + 4,
        on_time(job, names, flags, i).awaits(reply),
    ensures
        favourable(reply) ==> i < names.len() + 4 && on_time(job, names, flags, i).advance(
            reply,
        ).0 == on_time(job, names, flags, i + 1) && on_time(job, names, flags, i).advance(
            reply,
        ).1.request == next_request(job, names, flags, i),
        !favourable(reply) ==> on_time(job, names, flags, i).advance(reply).0 == (
        TransactionModel { job, names, flags, stage: Stage::Ended }) && on_time(
            job,
            names,
            flags,
            i,
        ).advance(reply).1.request == RequestModel::End,
{
}

proof fn lemma_state(
    job: Job,
    names: Seq<Seq<char>>,
    flags: TransFlags,
    replies: Seq<ReplyModel>,
)
    requires
        names.len() <= usize::MAX,
        answered(start(job, names, flags), replies),
    ensures
        state(start(job, names, flags), replies).stage == Stage::Ended ==> 0 < replies.len()
            <= names.len() + 5,
        state(start(job, names, flags), replies).stage != Stage::Ended ==> replies.len()
            <= names.len() + 4 && state(start(job, names, flags), replies) == on_time(
            job,
            names,
            flags,
            replies.len() as int,
        ) && (forall|k: int| 0 <= k < replies.len() ==> favourable(#[trigger] replies[k])),
    decreases replies.len(),
{
    let t = start(job, names, flags);
    let n = replies.len() as int;
    if n > 0 {
        let before = replies.drop_last();
        assert forall|i: int| 0 <= i < before.len() implies #[trigger] state(
            t,
            before.take(i),
        ).awaits(before[i]) by {
            assert(before.take(i) =~= replies.take(i));
            assert(state(t, replies.take(i)).awaits(replies[i]));
        }
        lemma_state(job, names, flags, before);
        assert(replies.take(n - 1) =~= before);
        assert(state(t, before).awaits(replies[n - 1]));
        lemma_advance(job, names, flags, n - 1, replies[n - 1]);
        if state(t, replies).stage != Stage::Ended {
            assert forall|k: int| 0 <= k < n implies favourable(#[trigger] replies[k]) by {
                if k < n - 1 {
                    assert(replies[k] == before[k]);
                }
            }
        }
    }
}

proof fn lemma_prefix(
    job: Job,
    names: Seq<Seq<char>>,
    flags: TransFlags,
    replies: Seq<ReplyModel>,
    i: int,
)
    requires
        names.len() <= usize::MAX,
        answered(start(job, names, flags), replies),
        0 <= i < replies.len(),
    ensures
        state(start(job, names, flags), replies.take(i)) == on_time(job, names, flags, i),
        on_time(job, names, flags, i).awaits(replies[i]),
        i <= names.len() + 4,
        forall|k: int| 0 <= k < i ==> favourable(#[trigger] replies[k]),
{
    let t = start(job, names, flags);
    let part = replies.take(i);
    assert forall|k: int| 0 <= k < part.len() implies #[trigger] state(t, part.take(k)).awaits(
        part[k],
    ) by {
        assert(part.take(k) =~= replies.take(k));
        assert(state(t, replies.take(k)).awaits(replies[k]));
    }
    lemma_state(job, names, flags, part);
    assert(state(t, replies.take(i)).awaits(replies[i]));
    assert forall|k: int| 0 <= k < i implies favourable(#[trigger] replies[k]) by {
        assert(part[k] == replies[k]);
    }
}

/// A transaction of `n` packages ends after at most `n + 5` replies.
pub proof fn every_transaction_ends(
    job: Job,
    names: Seq<Seq<char>>,
    flags: TransFlags,
    replies: Seq<ReplyModel>,
)
    requires
        names.len() <= usize::MAX,
        answered(start(job, names, flags), replies),
    ensures
        replies.len() <= names.len() + 5,
        replies.len() == names.len() + 5 ==> state(start(job, names, flags), replies).stage
            == Stage::Ended,
{
    lemma_state(job, names, flags, replies);
}

/// As long as all goes well, the database is checked for a lock, opened, and a
/// transaction with the options `flags` started; then the packages are added one
/// by one, in order; and then their dependencies are resolved.
pub proof fn requests_come_in_order(
    job: Job,
    names: Seq<Seq<char>>,
    flags: TransFlags,
    replies: Seq<ReplyModel>,
    i: int,
)
    requires
        names.len() <= usize::MAX,
        answered(start(job, names, flags), replies),
        0 <= i < replies.len(),
    ensures
        step(start(job, names, flags), replies, i).request == if favourable(replies[i]) {
            next_request(job, names, flags, i)
        } else {
            RequestModel::End
        },
{
    lemma_prefix(job, names, flags, replies, i);
    lemma_advance(job, names, flags, i, replies[i]);
}

/// A dry run never asks for packages to be removed.
pub proof fn a_dry_run_removes_nothing(
    names: Seq<Seq<char>>,
    flags: TransFlags,
    replies: Seq<ReplyModel>,
    i: int,
)
    requires
        names.len() <= usize::MAX,
        answered(start(Job::DryRun, names, flags), replies),
        0 <= i < replies.len(),
    ensures
        step(start(Job::DryRun, names, flags), replies, i).request != RequestModel::Commit,
{
    lemma_prefix(Job::DryRun, names, flags, replies, i);
    lemma_advance(Job::DryRun, names, flags, i, replies[i]);
}

/// Packages are removed only in a removal, and only after the database was found
/// not to be locked and could be opened, a transaction could be started, every one
/// of the packages could be added to it, and the dependencies could be resolved.
pub proof fn a_removal_comes_after_all_checks(
    job: Job,
    names: Seq<Seq<char>>,
    flags: TransFlags,
    replies: Seq<ReplyModel>,
    i: int,
)
    requires
        names.len() <= usize::MAX,
        answered(start(job, names, flags), replies),
        0 <= i < replies.len(),
        step(start(job, names, flags), replies, i).request == RequestModel::Commit,
    ensures
        job == Job::Removal,
        i == names.len() + 3,
        replies[0] == ReplyModel::Locked(false),
        replies[1] matches ReplyModel::Opened(r) && r is Ok,
        replies[2] matches ReplyModel::Started(r) && r is Ok,
        forall|k: int|
            0 <= k < names.len() ==> #[trigger] replies[3 + k] == ReplyModel::Queued(
                QueuedModel::Added,
            ) && step(start(job, names, flags), replies, 2 + k).request == RequestModel::Queue(
                names[k],
            ),
        replies[i] matches ReplyModel::Prepared(r) && r is Ok,
{
    lemma_prefix(job, names, flags, replies, i);
    requests_come_in_order(job, names, flags, replies, i);
    assert(favourable(replies[0]) && favourable(replies[1]) && favourable(replies[2]));
    lemma_prefix(job, names, flags, replies, 0);
    lemma_prefix(job, names, flags, replies, 1);
    lemma_prefix(job, names, flags, replies, 2);
    assert forall|k: int| 0 <= k < names.len() implies #[trigger] replies[3 + k]
        == ReplyModel::Queued(QueuedModel::Added) && step(
        start(job, names, flags),
        replies,
        2 + k,
    ).request == RequestModel::Queue(names[k]) by {
        lemma_prefix(job, names, flags, replies, 3 + k);
        assert(favourable(replies[2 + k]) && favourable(replies[3 + k]));
        requests_come_in_order(job, names, flags, replies, 2 + k);
    }
}

/// A dry run sends one message, and sends it at its end: a report where it has got
/// as far as to learn what would be removed, and an error otherwise.
pub proof fn a_dry_run_reports_once(
    names: Seq<Seq<char>>,
    flags: TransFlags,
    replies: Seq<ReplyModel>,
    i: int,
)
    requires
        names.len() <= usize::MAX,
        answered(start(Job::DryRun, names, flags), replies),
        0 <= i < replies.len(),
    ensures
        ({
            let s = step(start(Job::DryRun, names, flags), replies, i);
            if s.request != RequestModel::End {
                s.messages.len() == 0
            } else {
                s.messages.len() == 1 && match replies[i] {
                    ReplyModel::Collected(list) => s.messages[0]
                        == transaction::dry_run_report(list),
                    _ => s.messages[0] is DryRunErr,
                }
            }
        }),
{
    lemma_prefix(Job::DryRun, names, flags, replies, i);
    lemma_advance(Job::DryRun, names, flags, i, replies[i]);
}

/// A removal is called a success only where the packages have been removed, and a
/// failure only where they have not; it is called either at most once, at the end.
/// It ends without a word where the database could not be opened, the transaction
/// could not be started, or a package could not be added to it.
pub proof fn a_removal_reports_its_outcome(
    names: Seq<Seq<char>>,
    flags: TransFlags,
    replies: Seq<ReplyModel>,
    i: int,
)
    requires
        names.len() <= usize::MAX,
        answered(start(Job::Removal, names, flags), replies),
        0 <= i < replies.len(),
    ensures
        ({
            let s = step(start(Job::Removal, names, flags), replies, i);
            let silent = match replies[i] {
                ReplyModel::Opened(r) => r is Err,
                ReplyModel::Started(r) => r is Err,
                ReplyModel::Queued(queued) => queued is Refused,
                _ => false,
            };
            let removed = match replies[i] {
                ReplyModel::Committed(r) => r is Ok,
                _ => false,
            };
            if s.request != RequestModel::End {
                forall|k: int| 0 <= k < s.messages.len() ==> !(#[trigger] s.messages[k] is Done)
            } else if silent {
                s.messages.len() == 0
            } else {
                s.messages.len() > 0 && (s.messages.last() matches MessageModel::Done(r) && (r is Ok
                    <==> removed)) && forall|k: int|
                    0 <= k < s.messages.len() - 1 ==> !(#[trigger] s.messages[k] is Done)
            }
        }),
{
    lemma_prefix(Job::Removal, names, flags, replies, i);
    lemma_advance(Job::Removal, names, flags, i, replies[i]);
    lemma_progress_messages(names, names.len());
}

proof fn lemma_progress_messages(names: Seq<Seq<char>>, n: nat)
    requires
        n <= names.len(),
    ensures
        forall|k: int|
            0 <= k < transaction::progress_messages(names, n).len() ==> !(
            #[trigger] transaction::progress_messages(names, n)[k] is Done) && (
            transaction::progress_messages(names, n)[k] matches MessageModel::Progress(p, _)
                ==> p <= 90),
    decreases n,
{
    if n > 0 {
        lemma_progress_messages(names, (n - 1) as nat);
        rounding::lemma_progress((n - 1) as nat, names.len());
    }
}

/// No message tells of a progress beyond the whole.
pub proof fn progress_stays_within_the_whole(
    t: TransactionModel,
    reply: ReplyModel,
    k: int,
)
    requires
        t.awaits(reply),
        0 <= k < t.advance(reply).1.messages.len(),
    ensures
        t.advance(reply).1.messages[k] matches MessageModel::Progress(p, _) ==> p <= 100,
{
    lemma_progress_messages(t.names, t.names.len());
}

/// A transaction that was started is released when it ends, but for a removal of a
/// package that could not be added. Nothing is released before the end.
pub proof fn started_transactions_are_released(
    job: Job,
    names: Seq<Seq<char>>,
    flags: TransFlags,
    replies: Seq<ReplyModel>,
    i: int,
)
    requires
        names.len() <= usize::MAX,
        answered(start(job, names, flags), replies),
        0 <= i < replies.len(),
    ensures
        ({
            let s = step(start(job, names, flags), replies, i);
            let refused = match replies[i] {
                ReplyModel::Queued(QueuedModel::Refused(_)) => true,
                _ => false,
            };
            s.release <==> s.request == RequestModel::End && i >= 3 && !(job == Job::Removal
                && refused)
        }),
{
    lemma_prefix(job, names, flags, replies, i);
}

/// What is sent where a dry run fails: why, in words.
pub proof fn failures_of_a_dry_run(
    names: Seq<Seq<char>>,
    flags: TransFlags,
    k: usize,
    e: Seq<char>,
)
    requires
        k < names.len(),
    ensures
        ({
            let at = |stage: Stage|
                TransactionModel { job: Job::DryRun, names, flags, stage };
            let told = |stage: Stage, reply: ReplyModel| at(stage).advance(reply).1.messages;
            let error = |message: Seq<char>| seq![MessageModel::DryRunErr(message)];
            &&& told(Stage::Lock, ReplyModel::Locked(true)) == error(
                "Database is locked (/var/lib/pacman/db.lck).\nAnother package manager may be running."@,
            )
            &&& told(Stage::Open, ReplyModel::Opened(Err(e))) == error("alpm init: "@ + e)
            &&& told(Stage::Init, ReplyModel::Started(Err(e))) == error("trans_init: "@ + e)
            &&& told(Stage::Queue(k), ReplyModel::Queued(QueuedModel::NotFound)) == error(
                "Package not found: "@ + names[k as int],
            )
            &&& told(Stage::Queue(k), ReplyModel::Queued(QueuedModel::Refused(e))) == error(
                "add '"@ + names[k as int] + "': "@ + e,
            )
            &&& told(Stage::Prepare, ReplyModel::Prepared(Err(e))) == error(
                "Dependency resolution failed:\n"@ + e,
            )
        }),
{
}

/// What is sent where a removal fails: why, in words. Of a failure before all packages
/// have been added nothing is sent, but for a lock and a missing package.
pub proof fn failures_of_a_removal(
    names: Seq<Seq<char>>,
    flags: TransFlags,
    k: usize,
    e: Seq<char>,
)
    requires
        k < names.len(),
    ensures
        ({
            let at = |stage: Stage|
                TransactionModel { job: Job::Removal, names, flags, stage };
            let told = |stage: Stage, reply: ReplyModel| at(stage).advance(reply).1.messages;
            let error = |message: Seq<char>| seq![MessageModel::Done(Err(message))];
            let nothing = Seq::<MessageModel>::empty();
            &&& told(Stage::Lock, ReplyModel::Locked(true)) == error(
                "Database is locked (/var/lib/pacman/db.lck).\nAnother package manager may be running."@,
            )
            &&& told(Stage::Open, ReplyModel::Opened(Err(e))) == nothing
            &&& told(Stage::Init, ReplyModel::Started(Err(e))) == nothing
            &&& told(Stage::Queue(k), ReplyModel::Queued(QueuedModel::NotFound)) == error(
                "Package not found: "@ + names[k as int],
            )
            &&& told(Stage::Queue(k), ReplyModel::Queued(QueuedModel::Refused(e))) == nothing
            &&& told(Stage::Prepare, ReplyModel::Prepared(Err(e))) == error(
                "Prepare failed: "@ + e,
            )
            &&& told(Stage::Commit, ReplyModel::Committed(Err(e))) == error(
                "Commit failed: "@ + e,
            )
        }),
{
}

/// What is sent while all goes well. A dry run sends nothing before its report. A
/// removal tells that it resolves dependencies when the last package has been added
/// (at once where there are none), and at its end that it is done.
pub proof fn messages_of_a_smooth_run(
    job: Job,
    names: Seq<Seq<char>>,
    flags: TransFlags,
    k: usize,
    list: Seq<(Seq<char>, i64)>,
)
    requires
        names.len() <= usize::MAX,
    ensures
        ({
            let at = |stage: Stage| TransactionModel { job, names, flags, stage };
            let told = |stage: Stage, reply: ReplyModel| at(stage).advance(reply).1.messages;
            let nothing = Seq::<MessageModel>::empty();
            let resolving = if job == Job::Removal {
                seq![MessageModel::Log("Resolving dependencies…"@)]
            } else {
                nothing
            };
            &&& told(Stage::Lock, ReplyModel::Locked(false)) == nothing
            &&& told(Stage::Open, ReplyModel::Opened(Ok(()))) == nothing
            &&& told(Stage::Init, ReplyModel::Started(Ok(()))) == if names.len() == 0 {
                resolving
            } else {
                nothing
            }
            &&& k < names.len() ==> told(
                Stage::Queue(k),
                ReplyModel::Queued(QueuedModel::Added),
            ) == if k + 1 == names.len() {
                resolving
            } else {
                nothing
            }
            &&& job == Job::DryRun ==> told(Stage::Prepare, ReplyModel::Prepared(Ok(())))
                == nothing
            &&& job == Job::DryRun ==> told(Stage::Collect, ReplyModel::Collected(list)) == seq![
                transaction::dry_run_report(list),
            ]
            &&& job == Job::Removal ==> told(Stage::Commit, ReplyModel::Committed(Ok(())))
                == seq![
                MessageModel::Progress(100, Seq::empty()),
                MessageModel::Log("Done."@),
                MessageModel::Done(Ok(())),
            ]
        }),
{
}

/// Before the packages are removed, a removal tells of each of them in turn how far it
/// is and its name.
pub proof fn a_removal_tells_of_every_package(
    names: Seq<Seq<char>>,
    flags: TransFlags,
    k: int,
)
    requires
        0 <= k < names.len(),
    ensures
        ({
            let t = TransactionModel { job: Job::Removal, names, flags, stage: Stage::Prepare };
            let told = t.advance(ReplyModel::Prepared(Ok(()))).1.messages;
            &&& told.len() == 1 + 2 * names.len()
            &&& told[0] == MessageModel::Log("Committing transaction…"@)
            &&& told[1 + 2 * k] == MessageModel::Progress(
                rounding::progress_percent(k as nat, names.len()) as u8,
                names[k],
            )
            &&& told[2 + 2 * k] == MessageModel::Log("Removing "@ + names[k] + "…"@)
        }),
{
    lemma_told(names, names.len(), k);
}

proof fn lemma_told(names: Seq<Seq<char>>, n: nat, k: int)
    requires
        n <= names.len(),
    ensures
        transaction::progress_messages(names, n).len() == 1 + 2 * n,
        transaction::progress_messages(names, n)[0] == MessageModel::Log(
            "Committing transaction…"@,
        ),
        0 <= k < n ==> transaction::progress_messages(names, n)[1 + 2 * k]
            == MessageModel::Progress(
            rounding::progress_percent(k as nat, names.len()) as u8,
            names[k],
        ),
        0 <= k < n ==> transaction::progress_messages(names, n)[2 + 2 * k] == MessageModel::Log(
            "Removing "@ + names[k] + "…"@,
        ),
    decreases n,
{
    if n > 0 {
        lemma_told(names, (n - 1) as nat, k);
    }
}

/// A transaction keeps its purpose, its packages and its options to the end.
pub proof fn a_transaction_keeps_its_purpose(t: TransactionModel, reply: ReplyModel)
    ensures
        t.advance(reply).0.job == t.job,
        t.advance(reply).0.names == t.names,
        t.advance(reply).0.flags == t.flags,
        t.advance(reply).1.request == RequestModel::End <==> t.advance(reply).0.stage
            == Stage::Ended,
{
}

} // verus!
