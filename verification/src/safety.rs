//! What holds of removals, whatever has happened before.

use crate::app::Key;
use crate::dialogs;
use crate::layout::Area;
use crate::mode::TransFlags;
use crate::model::{ActionModel, AppModel, MessageModel, ScreenModel};
use crate::package::PkgInfo;
use crate::style::{st_warn, Style, C_DANGER, C_WHITE};
use crate::text;
use crate::transaction;
use crate::widget;
use crate::widget::WidgetModel;
use vstd::prelude::*;

verus! {

/// Something that happens to the program.
pub ghost enum Event {
    /// A key, held together with `Ctrl` or not.
    Key(Key, bool),
    /// A message, with the packages that could be read after it.
    Message(MessageModel, Option<Seq<PkgInfo>>),
}

/// The state after an event.
pub open spec fn on(s: AppModel, event: Event) -> AppModel {
    match event {
        Event::Key(key, ctrl) => s.key(key, ctrl).0,
        Event::Message(msg, reloaded) => s.message(msg, reloaded),
    }
}

/// The state after a number of events.
pub open spec fn after(s: AppModel, events: Seq<Event>) -> AppModel
    decreases events.len(),
{
    if events.len() == 0 {
        s
    } else {
        on(after(s, events.drop_last()), events.last())
    }
}

/// What a removal that waits to be confirmed is about.
pub ghost struct Plan {
    pub targets: Seq<Seq<char>>,
    pub freed: i64,
    pub warnings: Seq<Seq<char>>,
    pub flags: TransFlags,
}

/// Whether the confirmation of `plan` is asked for.
pub open spec fn asks_for(s: AppModel, plan: Plan) -> bool {
    match s.screen {
        ScreenModel::Confirm { targets, freed, warnings, flags, .. } => plan == (Plan {
            targets,
            freed,
            warnings,
            flags,
        }),
        _ => false,
    }
}

/// Whether event `i` is the report of a dry run on `plan`, and the confirmation of
/// `plan` has been asked for ever since.
pub open spec fn reported(s: AppModel, events: Seq<Event>, i: int, plan: Plan) -> bool {
    &&& 0 <= i < events.len()
    &&& match events[i] {
        Event::Message(msg, _) => msg == (MessageModel::DryRunOk {
            targets: plan.targets,
            freed: plan.freed,
            warnings: plan.warnings,
        }),
        Event::Key(..) => false,
    }
    &&& plan.flags == after(s, events.take(i)).mode.flags()
    &&& forall|j: int|
        i < j <= events.len() ==> asks_for(#[trigger] after(s, events.take(j)), plan)
}

/// A removal is asked for exactly where a confirmation is on the screen, `yes` has
/// been typed, with or without white space around it, and `Enter` is pressed. It
/// is the removal that the confirmation is about.
pub proof fn a_removal_is_what_was_confirmed(s: AppModel, key: Key, ctrl: bool)
    ensures
        s.key(key, ctrl).1 is Remove <==> (s.screen is Confirm && key == Key::Enter
            && text::trimmed(s.screen->input) == "yes"@),
        s.key(key, ctrl).1 matches ActionModel::Remove { targets, flags } ==> s.screen
            matches ScreenModel::Confirm { targets: t, flags: f, .. } && t == targets && f
            == flags,
{
}

/// Whatever happens, a confirmation comes onto the screen only by the report of a
/// dry run, and what it is about does not change afterwards.
pub proof fn only_a_dry_run_opens_the_confirmation(s: AppModel, event: Event, plan: Plan)
    requires
        asks_for(on(s, event), plan),
    ensures
        asks_for(s, plan) || (event matches Event::Message(msg, _) && msg
            == (MessageModel::DryRunOk {
            targets: plan.targets,
            freed: plan.freed,
            warnings: plan.warnings,
        }) && plan.flags == s.mode.flags()),
{
}

proof fn lemma_reported(s: AppModel, events: Seq<Event>, plan: Plan)
    requires
        !(s.screen is Confirm),
        asks_for(after(s, events), plan),
    ensures
        exists|i: int| reported(s, events, i, plan),
    decreases events.len(),
{
    let n = events.len() as int;
    assert(events.take(n) =~= events);
    if n > 0 {
        let before = events.drop_last();
        assert(events.take(n - 1) =~= before);
        only_a_dry_run_opens_the_confirmation(after(s, before), events.last(), plan);
        if asks_for(after(s, before), plan) {
            lemma_reported(s, before, plan);
            let i = choose|i: int| reported(s, before, i, plan);
            assert(events.take(i) =~= before.take(i));
            assert forall|j: int| i < j <= n implies asks_for(
                #[trigger] after(s, events.take(j)),
                plan,
            ) by {
                if j < n {
                    assert(events.take(j) =~= before.take(j));
                }
            }
            assert(reported(s, events, i, plan));
        } else {
            assert(reported(s, events, n - 1, plan));
        }
    }
}

/// Whatever happens, a removal is only asked for after a dry run: of all packages
/// that the dry run has reported and of no others, with the options of the mode in
/// which the report was received, and after the dialog has shown the packages,
/// their size and the warnings all the time since.
pub proof fn every_removal_follows_its_dry_run(
    s: AppModel,
    events: Seq<Event>,
    key: Key,
    ctrl: bool,
)
    requires
        s.screen is Browse,
        after(s, events).key(key, ctrl).1 is Remove,
    ensures
        exists|i: int, plan: Plan| #[trigger]
            reported(s, events, i, plan) && after(s, events).key(key, ctrl).1
                == (ActionModel::Remove { targets: plan.targets, flags: plan.flags }),
{
    let t = after(s, events);
    if let ScreenModel::Confirm { targets, freed, warnings, flags, .. } = t.screen {
        let plan = Plan { targets, freed, warnings, flags };
        lemma_reported(s, events, plan);
    }
}

/// Where the mode is still the one in which the dry run was asked for when its
/// report comes, the removal has the options of the dry run.
pub proof fn a_removal_has_the_options_of_its_dry_run(
    asked: AppModel,
    s: AppModel,
    events: Seq<Event>,
    i: int,
    plan: Plan,
)
    requires
        asked.dry_run() is DryRun,
        reported(s, events, i, plan),
        after(s, events.take(i)).mode == asked.mode,
    ensures
        plan.flags == asked.dry_run()->DryRun_flags,
{
}

/// `Esc` takes a confirmation back: nothing is removed, and all is as before the
/// dry run but for the screen.
pub proof fn a_removal_can_be_cancelled(s: AppModel, ctrl: bool)
    requires
        s.screen is Confirm,
    ensures
        s.key(Key::Esc, ctrl) == (
            AppModel { screen: ScreenModel::Browse, ..s },
            ActionModel::Stay,
        ),
{
}

/// No key stops or changes a removal that goes on; only `Ctrl` with `c` ends the
/// program.
pub proof fn a_removal_ignores_keys(s: AppModel, key: Key, ctrl: bool)
    requires
        s.screen is Removing,
    ensures
        s.key(key, ctrl).0 == s,
        s.key(key, ctrl).1 == if key == Key::Char('c') && ctrl {
            ActionModel::Quit
        } else {
            ActionModel::Stay
        },
{
}

/// `Ctrl` with `c` ends the program from everywhere, and `q` from the list while no
/// search is typed; nothing else does.
pub proof fn two_keys_quit(s: AppModel, key: Key, ctrl: bool)
    ensures
        s.key(key, ctrl).1 == ActionModel::Quit <==> ((key == Key::Char('c') && ctrl) || (key
            == Key::Char('q') && s.screen is Browse && !s.searching)),
        s.key(key, ctrl).1 == ActionModel::Quit ==> s.key(key, ctrl).0 == s,
{
}

/// Every package that the system needs has its warning in a report, and a report
/// without such a package has none.
pub proof fn reports_warn_of_critical_packages(list: Seq<(Seq<char>, i64)>)
    ensures
        transaction::dry_run_report(list) matches MessageModel::DryRunOk {
            targets,
            warnings,
            ..
        } && targets.len() == list.len() && (forall|k: int|
            0 <= k < list.len() ==> targets[k] == (#[trigger] list[k]).0 && (
            transaction::critical(targets[k]) ==> warnings.contains(
                transaction::warning(targets[k]),
            ))) && (forall|w: Seq<char>| #[trigger]
            warnings.contains(w) ==> exists|k: int|
                0 <= k < list.len() && transaction::critical(#[trigger] targets[k]) && w
                    == transaction::warning(targets[k])),
{
    let targets = list.map_values(|p: (Seq<char>, i64)| p.0);
    let pick = |n: Seq<char>| transaction::critical(n);
    let warn = |n: Seq<char>| transaction::warning(n);
    let picked = targets.filter(pick);
    let warnings = transaction::warnings_of(targets);
    assert(warnings == picked.map_values(warn));
    assert forall|k: int| 0 <= k < list.len() implies targets[k] == (#[trigger] list[k]).0 && (
    transaction::critical(targets[k]) ==> warnings.contains(
        transaction::warning(targets[k]),
    )) by {
        if transaction::critical(targets[k]) {
            targets.lemma_filter_contains(pick, k);
            let l = choose|l: int| 0 <= l < picked.len() && picked[l] == targets[k];
            assert(warnings[l] == transaction::warning(targets[k]));
        }
    }
    assert forall|w: Seq<char>| #[trigger] warnings.contains(w) implies exists|k: int|
        0 <= k < list.len() && transaction::critical(#[trigger] targets[k]) && w
            == transaction::warning(targets[k]) by {
        let l = choose|l: int| 0 <= l < warnings.len() && warnings[l] == w;
        targets.lemma_filter_pred(pick, l);
        assert(picked.contains(picked[l]));
        targets.lemma_filter_contains_rev(pick, picked[l]);
        let k = choose|k: int| 0 <= k < targets.len() && targets[k] == picked[l];
        assert(transaction::critical(targets[k]) && w == transaction::warning(targets[k]));
    }
}

/// What a dry run reports to be freed is the size of all packages that would be
/// removed together, as long as it fits.
pub proof fn reports_tell_what_is_freed(list: Seq<(Seq<char>, i64)>)
    requires
        i64::MIN <= transaction::sizes_sum(list) <= i64::MAX,
    ensures
        transaction::dry_run_report(list) matches MessageModel::DryRunOk { freed, .. } && freed
            == transaction::sizes_sum(list),
{
    crate::listing::sums_that_fit_are_exact(transaction::sizes_sum(list));
}

/// As long as no message tells of a progress beyond the whole, the progress on the
/// screen does not exceed it.
pub proof fn progress_on_the_screen_stays_within_the_whole(s: AppModel, event: Event)
    requires
        s.screen matches ScreenModel::Removing { progress, .. } ==> progress <= 100,
        event matches Event::Message(msg, _) ==> (msg matches MessageModel::Progress(p, _) ==> p
            <= 100),
    ensures
        on(s, event).screen matches ScreenModel::Removing { progress, .. } ==> progress <= 100,
{
}

/// Where a dry run finds that a package would be removed that the system needs,
/// the dialog that asks for the confirmation shows a warning with its name.
pub proof fn the_confirmation_shows_the_warnings(
    s: AppModel,
    list: Seq<(Seq<char>, i64)>,
    reloaded: Option<Seq<PkgInfo>>,
    screen: Area,
    k: int,
)
    requires
        0 <= k < list.len(),
        transaction::critical(list[k].0),
    ensures
        s.message(transaction::dry_run_report(list), reloaded).screen
            matches ScreenModel::Confirm { targets, freed, warnings, input, .. }
            && dialogs::confirm_panel(screen, targets, freed, warnings, input).last().widget
            matches WidgetModel::Text(lines) && lines.contains(
            seq![
                widget::sp("  ⚠  "@, st_warn()),
                widget::sp(transaction::warning(list[k].0), st_warn()),
            ],
        ),
{
    reports_warn_of_critical_packages(list);
    if let ScreenModel::Confirm { targets, freed, warnings, input, .. } = s.message(
        transaction::dry_run_report(list),
        reloaded,
    ).screen {
        let name = list[k].0;
        let panel = dialogs::confirm_panel(screen, targets, freed, warnings, input);
        if let WidgetModel::Text(lines) = panel.last().widget {
            let width = crate::layout::inner(
                crate::layout::centered(64, 72, screen),
                crate::layout::BORDER_ALL,
            ).width;
            let a = dialogs::target_lines(targets);
            let b = dialogs::freed_lines(freed, warnings, width);
            let c = dialogs::input_lines(input, width);
            assert(lines == a + b + c);
            let l = choose|l: int|
                0 <= l < warnings.len() && warnings[l] == transaction::warning(name);
            let line = seq![
                widget::sp("  ⚠  "@, st_warn()),
                widget::sp(transaction::warning(name), st_warn()),
            ];
            let bulleted = widget::bulleted(
                widget::sp("  ⚠  "@, st_warn()),
                warnings,
                st_warn(),
            );
            assert(bulleted[l] == line);
            assert(b[5 + l] == line);
            assert(lines[a.len() + 5 + l] == line);
        }
    }
}

/// The dialog that asks for the confirmation names every package that the dry run
/// has found, in order.
pub proof fn the_confirmation_names_every_package(
    s: AppModel,
    list: Seq<(Seq<char>, i64)>,
    reloaded: Option<Seq<PkgInfo>>,
    screen: Area,
    k: int,
)
    requires
        0 <= k < list.len(),
    ensures
        s.message(transaction::dry_run_report(list), reloaded).screen
            matches ScreenModel::Confirm { targets, freed, warnings, input, .. }
            && dialogs::confirm_panel(screen, targets, freed, warnings, input).last().widget
            matches WidgetModel::Text(lines) && lines.len() > 3 + k && lines[3 + k] == seq![
            widget::sp("  ✗ "@, Style::of(C_DANGER)),
            widget::sp(list[k].0, Style::of(C_WHITE).bold()),
        ] && lines.contains(
            seq![
                widget::sp("  ✗ "@, Style::of(C_DANGER)),
                widget::sp(list[k].0, Style::of(C_WHITE).bold()),
            ],
        ),
{
    if let ScreenModel::Confirm { targets, freed, warnings, input, .. } = s.message(
        transaction::dry_run_report(list),
        reloaded,
    ).screen {
        let panel = dialogs::confirm_panel(screen, targets, freed, warnings, input);
        if let WidgetModel::Text(lines) = panel.last().widget {
            let bulleted = widget::bulleted(
                widget::sp("  ✗ "@, Style::of(C_DANGER)),
                targets,
                Style::of(C_WHITE).bold(),
            );
            assert(bulleted[k] == seq![
                widget::sp("  ✗ "@, Style::of(C_DANGER)),
                widget::sp(list[k].0, Style::of(C_WHITE).bold()),
            ]);
            assert(dialogs::target_lines(targets)[3 + k] == bulleted[k]);
            assert(lines[3 + k] == bulleted[k]);
        }
    }
}

/// The warnings of a report. Every package of the built-in list that a dry run has
/// found has one, and so has every kernel: each package whose name begins with
/// `linux-`, but for the headers, whose names begin with `linux-headers`.
pub proof fn reports_warn_of_what_the_system_needs(list: Seq<(Seq<char>, i64)>, k: int)
    requires
        0 <= k < list.len(),
        ({
            ||| list[k].0 == "glibc"@
            ||| list[k].0 == "systemd"@
            ||| list[k].0 == "pacman"@
            ||| list[k].0 == "linux"@
            ||| list[k].0 == "base"@
            ||| list[k].0 == "bash"@
            ||| list[k].0 == "coreutils"@
            ||| list[k].0 == "gcc-libs"@
            ||| list[k].0 == "glib2"@
            ||| list[k].0 == "dbus"@
            ||| list[k].0 == "util-linux"@
            ||| list[k].0 == "shadow"@
            ||| list[k].0 == "pam"@
            ||| list[k].0 == "openssl"@
            ||| list[k].0 == "cryptsetup"@
            ||| list[k].0 == "lvm2"@
            ||| list[k].0 == "e2fsprogs"@
            ||| list[k].0 == "btrfs-progs"@
            ||| list[k].0 == "grub"@
            ||| list[k].0 == "efibootmgr"@
            ||| list[k].0 == "sudo"@
            ||| list[k].0 == "polkit"@
            ||| list[k].0 == "networkmanager"@
            ||| list[k].0 == "systemd-libs"@
            ||| list[k].0 == "libsystemd"@
            ||| list[k].0 == "iptables"@
            ||| list[k].0 == "nftables"@
            ||| list[k].0 == "iproute2"@
            ||| list[k].0 == "procps-ng"@
            ||| list[k].0 == "psmisc"@
            ||| list[k].0 == "less"@
            ||| list[k].0 == "grep"@
            ||| list[k].0 == "gawk"@
            ||| list[k].0 == "sed"@
            ||| list[k].0 == "findutils"@
            ||| list[k].0 == "tar"@
            ||| list[k].0 == "gzip"@
            ||| list[k].0 == "xz"@
            ||| list[k].0 == "zstd"@
            ||| list[k].0 == "mkinitcpio"@
            ||| list[k].0 == "filesystem"@
            ||| list[k].0 == "tzdata"@
            ||| "linux-"@.is_prefix_of(list[k].0) && !"linux-headers"@.is_prefix_of(list[k].0)
        }),
    ensures
        transaction::dry_run_report(list) matches MessageModel::DryRunOk { warnings, .. }
            && warnings.contains(list[k].0 + "  is a critical system package!"@),
{
    reports_warn_of_critical_packages(list);
    assert(transaction::critical(list[k].0));
}

/// No other package has a warning: neither a name that is merely like one of the
/// built-in list, nor the headers of a kernel.
pub proof fn reports_warn_of_nothing_else(list: Seq<(Seq<char>, i64)>, name: Seq<char>)
    requires
        !({
            ||| name == "glibc"@
            ||| name == "systemd"@
            ||| name == "pacman"@
            ||| name == "linux"@
            ||| name == "base"@
            ||| name == "bash"@
            ||| name == "coreutils"@
            ||| name == "gcc-libs"@
            ||| name == "glib2"@
            ||| name == "dbus"@
            ||| name == "util-linux"@
            ||| name == "shadow"@
            ||| name == "pam"@
            ||| name == "openssl"@
            ||| name == "cryptsetup"@
            ||| name == "lvm2"@
            ||| name == "e2fsprogs"@
            ||| name == "btrfs-progs"@
            ||| name == "grub"@
            ||| name == "efibootmgr"@
            ||| name == "sudo"@
            ||| name == "polkit"@
            ||| name == "networkmanager"@
            ||| name == "systemd-libs"@
            ||| name == "libsystemd"@
            ||| name == "iptables"@
            ||| name == "nftables"@
            ||| name == "iproute2"@
            ||| name == "procps-ng"@
            ||| name == "psmisc"@
            ||| name == "less"@
            ||| name == "grep"@
            ||| name == "gawk"@
            ||| name == "sed"@
            ||| name == "findutils"@
            ||| name == "tar"@
            ||| name == "gzip"@
            ||| name == "xz"@
            ||| name == "zstd"@
            ||| name == "mkinitcpio"@
            ||| name == "filesystem"@
            ||| name == "tzdata"@
            ||| "linux-"@.is_prefix_of(name) && !"linux-headers"@.is_prefix_of(name)
        }),
    ensures
        !transaction::critical(name),
        transaction::dry_run_report(list.push((name, 0))) matches MessageModel::DryRunOk {
            warnings,
            ..
        } && transaction::dry_run_report(list) matches MessageModel::DryRunOk {
            warnings: before,
            ..
        } && warnings == before,
{
    a_report_grows_with_each_package(list, name, 0);
}

/// One package more in a report: its name comes behind the other names, its size is
/// added to what is freed, and its warning, where it has one, comes behind the other
/// warnings. A report on nothing is empty.
pub proof fn a_report_grows_with_each_package(
    list: Seq<(Seq<char>, i64)>,
    name: Seq<char>,
    size: i64,
)
    ensures
        transaction::dry_run_report(Seq::empty()) == (MessageModel::DryRunOk {
            targets: Seq::empty(),
            freed: 0,
            warnings: Seq::empty(),
        }),
        transaction::dry_run_report(list) matches MessageModel::DryRunOk {
            targets,
            freed,
            warnings,
        } && transaction::dry_run_report(list.push((name, size))) matches MessageModel::DryRunOk {
            targets: more_targets,
            freed: more_freed,
            warnings: more_warnings,
        } && more_targets == targets + seq![name] && (freed + size - more_freed)
            % 0x1_0000_0000_0000_0000 == 0 && (i64::MIN <= freed + size <= i64::MAX ==> more_freed
            == freed + size) && more_warnings == if transaction::critical(name) {
            warnings + seq![name + "  is a critical system package!"@]
        } else {
            warnings
        },
{
    let none = Seq::<(Seq<char>, i64)>::empty();
    let pick = |n: Seq<char>| transaction::critical(n);
    let warn = |n: Seq<char>| transaction::warning(n);
    let names = list.map_values(|p: (Seq<char>, i64)| p.0);
    let more = list.push((name, size));
    reveal(Seq::filter);
    assert(none.map_values(|p: (Seq<char>, i64)| p.0) =~= Seq::<Seq<char>>::empty());
    assert(Seq::<Seq<char>>::empty().filter(pick).map_values(warn) =~= Seq::<Seq<char>>::empty());
    assert(more.map_values(|p: (Seq<char>, i64)| p.0) =~= names.push(name));
    assert(names.push(name) =~= names + seq![name]);
    assert(more.drop_last() =~= list);
    crate::listing::lemma_filter_push(names, name, pick);
    let picked = names.filter(pick);
    assert(picked.push(name).map_values(warn) =~= picked.map_values(warn) + seq![
        transaction::warning(name),
    ]);
    let sum = transaction::sizes_sum(list);
    crate::listing::sums_can_wrap_early(sum, size as int);
    crate::laws::sums_lose_whole_multiples(crate::listing::wrapped(sum) + size);
    if i64::MIN <= crate::listing::wrapped(sum) + size <= i64::MAX {
        crate::listing::sums_that_fit_are_exact(crate::listing::wrapped(sum) + size);
    }
}

/// What a report says to be freed is the sum of the sizes of all packages that were
/// found, or what is left of it where it does not fit.
pub proof fn what_is_freed_is_the_sum_of_all_sizes(list: Seq<(Seq<char>, i64)>)
    ensures
        transaction::dry_run_report(list) matches MessageModel::DryRunOk { freed, .. } && ({
            let sum = list.map_values(|p: (Seq<char>, i64)| p.1 as int).fold_left(
                0,
                |a: int, b: int| a + b,
            );
            &&& (sum - freed) % 0x1_0000_0000_0000_0000 == 0
            &&& i64::MIN <= sum <= i64::MAX ==> freed == sum
        }),
{
    lemma_sizes_sum(list);
    let sum = transaction::sizes_sum(list);
    crate::laws::sums_lose_whole_multiples(sum);
    if i64::MIN <= sum <= i64::MAX {
        crate::listing::sums_that_fit_are_exact(sum);
    }
}

proof fn lemma_sizes_sum(list: Seq<(Seq<char>, i64)>)
    ensures
        transaction::sizes_sum(list) == list.map_values(
            |p: (Seq<char>, i64)| p.1 as int,
        ).fold_left(0, |a: int, b: int| a + b),
    decreases list.len(),
{
    let sizes = list.map_values(|p: (Seq<char>, i64)| p.1 as int);
    if list.len() > 0 {
        let rest = list.drop_last();
        lemma_sizes_sum(rest);
        assert(sizes.drop_last() =~= rest.map_values(|p: (Seq<char>, i64)| p.1 as int));
    }
}

/// A report names all packages that were found, in order.
pub proof fn reports_name_every_package(list: Seq<(Seq<char>, i64)>)
    ensures
        transaction::dry_run_report(list) matches MessageModel::DryRunOk { targets, .. }
            && targets.len() == list.len() && forall|k: int|
            0 <= k < list.len() ==> targets[k] == (#[trigger] list[k]).0,
{
}

} // verus!
