//! What holds of the library as a whole.

use crate::app::Key;
use crate::listing;
use crate::mode::{Mode, SortMode};
use crate::model;
use crate::model::{ActionModel, AppModel, MessageModel, ScreenModel};
use crate::order;
use crate::package;
use crate::package::{PkgInfo, Reason};
use crate::text;
use vstd::prelude::*;
use vstd::relations::sorted_by;
use vstd::utf8::*;

verus! {

/// Every place in the list is one of an installed package.
pub proof fn listed_packages_exist(s: AppModel, k: int)
    requires
        s.wf(),
        0 <= k < s.filtered.len(),
    ensures
        s.filtered[k] < s.pkgs.len(),
        listing::shown(s.pkgs[s.filtered[k] as int], s.query, s.show_orphans),
{
    the_list_is_exact(s.pkgs, s.query, s.show_orphans, s.sort_mode);
    assert(s.filtered.contains(s.filtered[k]));
}

proof fn lemma_indices_filter(n: nat, f: spec_fn(usize) -> bool, i: usize)
    requires
        n <= usize::MAX,
    ensures
        package::indices(n).filter(f).contains(i) <==> i < n && f(i),
{
    let s = package::indices(n);
    if s.filter(f).contains(i) {
        s.lemma_filter_contains_rev(f, i);
        let k = choose|k: int| 0 <= k < s.filter(f).len() && s.filter(f)[k] == i;
        s.lemma_filter_pred(f, k);
    }
    if i < n && f(i) {
        assert(s[i as int] == i);
        s.lemma_filter_contains(f, i as int);
    }
}

proof fn lemma_indices_filter_distinct(n: nat, f: spec_fn(usize) -> bool)
    requires
        n <= usize::MAX,
    ensures
        package::indices(n).filter(f).no_duplicates(),
    decreases n,
{
    reveal(Seq::filter);
    if n > 0 {
        let m = (n - 1) as nat;
        lemma_indices_filter_distinct(m, f);
        lemma_indices_filter(m, f, m as usize);
        assert(package::indices(n).drop_last() =~= package::indices(m));
    }
}

/// The list holds exactly the packages that are to be shown, each once, in the
/// chosen order.
pub proof fn the_list_is_exact(
    pkgs: Seq<PkgInfo>,
    query: Seq<char>,
    only_orphans: bool,
    mode: SortMode,
)
    requires
        pkgs.len() <= usize::MAX,
    ensures
        forall|i: usize| #[trigger]
            listing::listing(pkgs, query, only_orphans, mode).contains(i) <==> i < pkgs.len()
                && listing::shown(pkgs[i as int], query, only_orphans),
        listing::listing(pkgs, query, only_orphans, mode).no_duplicates(),
        sorted_by(
            listing::listing(pkgs, query, only_orphans, mode),
            listing::ordering(pkgs, mode),
        ),
        listing::listing(pkgs, query, only_orphans, mode).len() <= pkgs.len(),
{
    let f = |i: usize| listing::shown(pkgs[i as int], query, only_orphans);
    let picked = package::indices(pkgs.len()).filter(f);
    let list = listing::listing(pkgs, query, only_orphans, mode);
    listing::ordering_is_total(pkgs, mode);
    picked.lemma_sort_by_ensures(listing::ordering(pkgs, mode));
    picked.to_multiset_ensures();
    list.to_multiset_ensures();
    package::indices(pkgs.len()).lemma_filter_len(f);
    assert forall|i: usize| #[trigger] list.contains(i) <==> i < pkgs.len() && listing::shown(
        pkgs[i as int],
        query,
        only_orphans,
    ) by {
        lemma_indices_filter(pkgs.len(), f, i);
        assert(list.to_multiset().count(i) == picked.to_multiset().count(i));
    }
    lemma_indices_filter_distinct(pkgs.len(), f);
    picked.lemma_multiset_has_no_duplicates();
    list.lemma_multiset_has_no_duplicates_conv();
}

proof fn lemma_moved(s: AppModel, delta: int)
    requires
        s.wf(),
    ensures
        s.moved(delta).wf(),
        s.filtered.len() > 0 ==> s.moved(delta).cursor == (s.cursor + delta) % (
        s.filtered.len() as int),
{
    the_list_is_exact(s.pkgs, s.query, s.show_orphans, s.sort_mode);
    if s.filtered.len() > 0 {
        let n = s.filtered.len() as int;
        assert(0 <= (s.cursor + delta) % n < n) by (nonlinear_arith)
            requires
                n > 0,
        ;
    }
}

proof fn lemma_marks(s: AppModel)
    requires
        s.wf(),
    ensures
        s.toggled().wf(),
        s.toggled_all().wf(),
        s.orphans_marked().wf(),
{
    if s.cursor < s.filtered.len() {
        listed_packages_exist(s, s.cursor as int);
    }
    assert forall|i: usize| s.toggled_all().marked.contains(i) implies i < s.pkgs.len() by {
        if s.filtered.to_set().contains(i) {
            let k = choose|k: int| 0 <= k < s.filtered.len() && s.filtered[k] == i;
            listed_packages_exist(s, k);
        }
    }
}

proof fn lemma_refiltered(s: AppModel, list: AppModel)
    requires
        s.wf(),
        list == (AppModel {
            query: list.query,
            show_orphans: list.show_orphans,
            sort_mode: list.sort_mode,
            ..s
        }),
    ensures
        list.refiltered().wf(),
{
}

proof fn lemma_browse_char(s: AppModel, c: char)
    requires
        s.wf(),
    ensures
        s.browse_char(c).0.wf(),
{
    lemma_moved(s, -1);
    lemma_moved(s, 1);
    lemma_marks(s);
    lemma_refiltered(s, AppModel { show_orphans: !s.show_orphans, ..s });
    lemma_refiltered(s, AppModel { sort_mode: s.sort_mode.next(), ..s });
}

proof fn lemma_browse_key(s: AppModel, key: Key)
    requires
        s.wf(),
    ensures
        s.browse_key(key).0.wf(),
{
    if let Key::Char(c) = key {
        lemma_browse_char(s, c);
    }
    lemma_moved(s, -1);
    lemma_moved(s, 1);
    lemma_moved(s, -10);
    lemma_moved(s, 10);
    lemma_refiltered(s, AppModel { show_orphans: false, ..s });
    lemma_refiltered(s, AppModel { query: Seq::empty(), ..s });
}

/// A key leads from a valid state to a valid one.
pub proof fn keys_keep_the_state_valid(s: AppModel, key: Key, ctrl: bool)
    requires
        s.wf(),
    ensures
        s.key(key, ctrl).0.wf(),
{
    lemma_browse_key(s, key);
    if let Key::Char(c) = key {
        lemma_refiltered(s, AppModel { query: s.query.push(c), ..s });
    }
}

/// A message of the worker leads from a valid state to a valid one.
pub proof fn messages_keep_the_state_valid(
    s: AppModel,
    msg: MessageModel,
    reloaded: Option<Seq<PkgInfo>>,
)
    requires
        s.wf(),
        reloaded matches Some(pkgs) ==> pkgs.len() <= usize::MAX,
        msg matches MessageModel::Refreshed(pkgs) ==> pkgs.len() <= usize::MAX,
    ensures
        s.message(msg, reloaded).wf(),
{
}

/// Two moves of the selection are one move by both distances together.
pub proof fn moves_add_up(s: AppModel, a: int, b: int)
    requires
        s.wf(),
    ensures
        s.moved(a).moved(b) == s.moved(a + b),
{
    lemma_moved(s, a);
    if s.filtered.len() > 0 {
        let n = s.filtered.len() as int;
        vstd::arithmetic::div_mod::lemma_add_mod_noop_right(b, s.cursor + a, n);
    }
}

/// A move back undoes a move, and moving by as many rows as there are leads back to
/// where it began.
pub proof fn moves_lead_back(s: AppModel, delta: int)
    requires
        s.wf(),
    ensures
        s.moved(delta).moved(-delta) == s,
        s.moved(s.filtered.len() as int) == s,
{
    moves_add_up(s, delta, -delta);
    if s.filtered.len() > 0 {
        let n = s.filtered.len() as int;
        vstd::arithmetic::div_mod::lemma_small_mod(s.cursor as nat, n as nat);
        vstd::arithmetic::div_mod::lemma_mod_add_multiples_vanish(s.cursor as int, n);
        assert(s.moved(0) == s);
    }
}

/// Setting and taking off the mark of the selected package leads back to where it
/// began.
pub proof fn marking_twice_changes_nothing(s: AppModel)
    ensures
        s.toggled().toggled() == s,
{
    if s.cursor < s.filtered.len() {
        let i = s.filtered[s.cursor as int];
        if s.marked.contains(i) {
            assert(s.marked.remove(i).insert(i) =~= s.marked);
        } else {
            assert(s.marked.insert(i).remove(i) =~= s.marked);
        }
    }
}

/// Marking all marks every listed package, or takes the marks of all of them off
/// where all have one. Packages that are not listed keep what they have.
pub proof fn marking_all_concerns_the_list(s: AppModel, i: usize)
    ensures
        s.filtered.contains(i) ==> (s.toggled_all().marked.contains(i) <==> !s.all_marked()),
        !s.filtered.contains(i) ==> (s.toggled_all().marked.contains(i) <==> s.marked.contains(
            i,
        )),
        !s.all_marked() ==> s.toggled_all().all_marked(),
{
    if !s.all_marked() {
        assert forall|k: int| 0 <= k < s.filtered.len() implies s.toggled_all().marked.contains(
            s.filtered[k],
        ) by {
            assert(s.filtered.to_set().contains(s.filtered[k]));
        }
    }
}

/// Marking the orphans marks all of them and nothing else, and the mode is then the
/// recursive one, whatever it was before.
pub proof fn marking_orphans_prepares_their_removal(s: AppModel, i: usize)
    ensures
        s.orphans_marked().marked.contains(i) <==> i < s.pkgs.len() && s.pkgs[i as int].orphan(),
        s.orphans_marked().mode == Mode::Recursive,
{
}

/// Only three keys change the marks, and only in the list while no search is typed.
pub proof fn three_keys_change_the_marks(s: AppModel, key: Key, ctrl: bool)
    requires
        s.key(key, ctrl).0.marked != s.marked,
    ensures
        s.screen is Browse,
        !s.searching,
        key == Key::Char(' ') || key == Key::Char('a') || key == Key::Char('O'),
{
}

/// Of the messages, only the success of a removal and newly read packages change
/// the marks.
pub proof fn two_messages_change_the_marks(
    s: AppModel,
    msg: MessageModel,
    reloaded: Option<Seq<PkgInfo>>,
)
    requires
        s.message(msg, reloaded).marked != s.marked,
    ensures
        msg is Refreshed || (msg matches MessageModel::Done(r) && r is Ok && reloaded is Some
            && s.message(msg, reloaded).marked == Set::<usize>::empty()),
{
}

/// Making the list anew changes nothing, as it is always up to date.
pub proof fn the_list_is_up_to_date(s: AppModel)
    requires
        s.wf(),
    ensures
        s.refiltered() == s,
{
}

/// Without a search and without the orphan filter all packages are listed.
pub proof fn without_a_filter_all_is_listed(s: AppModel, i: usize)
    requires
        s.wf(),
        s.query.len() == 0,
        !s.show_orphans,
    ensures
        s.filtered.contains(i) <==> i < s.pkgs.len(),
        s.filtered.len() == s.pkgs.len(),
{
    the_list_is_exact(s.pkgs, s.query, s.show_orphans, s.sort_mode);
    let all = package::indices(s.pkgs.len());
    let f = |i: usize| listing::shown(s.pkgs[i as int], s.query, s.show_orphans);
    lemma_filter_all(all, f);
    listing::ordering_is_total(s.pkgs, s.sort_mode);
    all.lemma_sort_by_ensures(listing::ordering(s.pkgs, s.sort_mode));
    all.to_multiset_ensures();
    s.filtered.to_multiset_ensures();
}

proof fn lemma_filter_all<A>(s: Seq<A>, f: spec_fn(A) -> bool)
    requires
        forall|i: int| 0 <= i < s.len() ==> f(#[trigger] s[i]),
    ensures
        s.filter(f) == s,
    decreases s.len(),
{
    reveal(Seq::filter);
    if s.len() > 0 {
        lemma_filter_all(s.drop_last(), f);
        assert(s.drop_last().push(s.last()) =~= s);
    }
}

/// With the orphan filter, and without a search, exactly the orphans are listed.
pub proof fn the_orphan_filter_lists_the_orphans(s: AppModel, i: usize)
    requires
        s.wf(),
        s.query.len() == 0,
        s.show_orphans,
    ensures
        s.filtered.contains(i) <==> i < s.pkgs.len() && s.pkgs[i as int].orphan(),
{
    the_list_is_exact(s.pkgs, s.query, s.show_orphans, s.sort_mode);
}

/// A search lists exactly the packages whose name, description or version holds
/// what was typed, upper and lower case being the same.
pub proof fn a_search_lists_what_it_finds(s: AppModel, i: usize)
    requires
        s.wf(),
        s.query.len() > 0,
        !s.show_orphans,
    ensures
        s.filtered.contains(i) <==> i < s.pkgs.len() && ({
            let p = s.pkgs[i as int];
            let q = text::lowered(s.query);
            ||| text::occurs(q, text::lowered(p.name@))
            ||| text::occurs(q, text::lowered(p.desc@))
            ||| text::occurs(q, text::lowered(p.version@))
        }),
{
    the_list_is_exact(s.pkgs, s.query, s.show_orphans, s.sort_mode);
    if text::lowered(s.query).len() == 0 {
        assert(text::lowered(s.query) =~= Seq::empty());
        lemma_nothing_occurs(text::lowered(s.pkgs[i as int].name@));
    }
}

/// Two searches that differ in nothing but upper and lower case list the same.
pub proof fn searches_ignore_case(
    pkgs: Seq<PkgInfo>,
    query: Seq<char>,
    other: Seq<char>,
    only_orphans: bool,
    mode: SortMode,
)
    requires
        text::lowered(query) == text::lowered(other),
    ensures
        listing::listing(pkgs, query, only_orphans, mode) == listing::listing(
            pkgs,
            other,
            only_orphans,
            mode,
        ),
{
    assert((|i: usize| listing::shown(pkgs[i as int], query, only_orphans)) =~= (|i: usize|
        listing::shown(pkgs[i as int], other, only_orphans)));
}

/// Any two packages of the list stand in the chosen order: by name, by size with
/// the largest first, or the orphans first and each group by name.
pub proof fn the_list_is_in_order(s: AppModel, k: int, l: int)
    requires
        s.wf(),
        0 <= k < l < s.filtered.len(),
    ensures
        ({
            let p = s.pkgs[s.filtered[k] as int];
            let q = s.pkgs[s.filtered[l] as int];
            match s.sort_mode {
                SortMode::Name => order::lex_le(p.name@, q.name@),
                SortMode::Size => p.size >= q.size,
                SortMode::OrphansFirst => (p.orphan() && !q.orphan()) || (p.orphan() == q.orphan()
                    && order::lex_le(p.name@, q.name@)),
            }
        }),
        s.filtered[k] != s.filtered[l],
{
    the_list_is_exact(s.pkgs, s.query, s.show_orphans, s.sort_mode);
    let leq = listing::ordering(s.pkgs, s.sort_mode);
    assert(leq(s.filtered[k], s.filtered[l]));
    listed_packages_exist(s, k);
    listed_packages_exist(s, l);
    assert(listing::names(s.pkgs)[s.filtered[k] as int] == s.pkgs[s.filtered[k] as int].name@);
    assert(listing::names(s.pkgs)[s.filtered[l] as int] == s.pkgs[s.filtered[l] as int].name@);
}

proof fn lemma_nothing_occurs(s: Seq<char>)
    ensures
        text::occurs(Seq::empty(), s),
{
    assert(s.subrange(0, 0 + Seq::<char>::empty().len() as int) =~= Seq::<char>::empty());
}

proof fn lemma_prefix_occurs(part: Seq<char>, longer: Seq<char>, s: Seq<char>)
    requires
        part.is_prefix_of(longer),
        text::occurs(longer, s),
    ensures
        text::occurs(part, s),
{
    let i = choose|i: int|
        0 <= i <= s.len() - longer.len() && #[trigger] s.subrange(i, i + longer.len()) == longer;
    assert forall|k: int| 0 <= k < part.len() implies s[i + k] == part[k] by {
        assert(longer[k] == part[k]);
        assert(s.subrange(i, i + longer.len())[k] == s[i + k]);
    }
    assert(s.subrange(i, i + part.len()) =~= part);
}

/// A search for more, or the orphan filter, takes packages off the list and brings
/// none onto it, whatever the order. To search for more is to have what was typed
/// before, in lower case, at the beginning of what is typed, in lower case.
pub proof fn filters_only_shrink_the_list(wide: AppModel, narrow: AppModel, i: usize)
    requires
        wide.pkgs.len() <= usize::MAX,
        narrow.pkgs == wide.pkgs,
        wide.show_orphans ==> narrow.show_orphans,
        text::lowered(wide.query).is_prefix_of(text::lowered(narrow.query)),
    ensures
        narrow.refiltered().filtered.contains(i) ==> wide.refiltered().filtered.contains(i),
        narrow.refiltered().filtered.len() <= wide.refiltered().filtered.len(),
{
    let few = narrow.refiltered().filtered;
    let many = wide.refiltered().filtered;
    let a = text::lowered(wide.query);
    let b = text::lowered(narrow.query);
    the_list_is_exact(wide.pkgs, wide.query, wide.show_orphans, wide.sort_mode);
    the_list_is_exact(narrow.pkgs, narrow.query, narrow.show_orphans, narrow.sort_mode);
    assert forall|k: usize| few.contains(k) implies #[trigger] many.contains(k) by {
        let p = wide.pkgs[k as int];
        if a.len() > 0 {
            if text::occurs(b, text::lowered(p.name@)) {
                lemma_prefix_occurs(a, b, text::lowered(p.name@));
            } else if text::occurs(b, text::lowered(p.desc@)) {
                lemma_prefix_occurs(a, b, text::lowered(p.desc@));
            } else {
                lemma_prefix_occurs(a, b, text::lowered(p.version@));
            }
        }
    }
    few.unique_seq_to_set();
    many.unique_seq_to_set();
    assert(few.to_set().subset_of(many.to_set())) by {
        assert forall|k: usize| few.to_set().contains(k) implies many.to_set().contains(k) by {
            assert(few.contains(k));
            assert(many.contains(k));
        }
    }
    vstd::set_lib::lemma_len_subset(few.to_set(), many.to_set());
}

/// Typing on, in a search of ASCII characters, takes packages off the list and
/// brings none onto it, and so does the orphan filter.
pub proof fn typing_on_only_shrinks_the_list(wide: AppModel, narrow: AppModel, i: usize)
    requires
        wide.pkgs.len() <= usize::MAX,
        narrow.pkgs == wide.pkgs,
        wide.show_orphans ==> narrow.show_orphans,
        is_ascii_chars(narrow.query),
        wide.query.is_prefix_of(narrow.query),
    ensures
        narrow.refiltered().filtered.contains(i) ==> wide.refiltered().filtered.contains(i),
        narrow.refiltered().filtered.len() <= wide.refiltered().filtered.len(),
{
    let a = wide.query;
    let b = narrow.query;
    assert forall|k: int| 0 <= k < a.len() implies a[k] == b[k] by {
        assert(b.subrange(0, a.len() as int)[k] == b[k]);
    }
    assert(is_ascii_chars(a));
    assert(text::lowered(a) =~= text::lowered(b).subrange(0, a.len() as int));
    filters_only_shrink_the_list(wide, narrow, i);
}

/// The order in which packages are listed changes nothing but their order.
pub proof fn the_order_only_reorders_the_list(s: AppModel, t: AppModel)
    requires
        t.pkgs == s.pkgs,
        t.query == s.query,
        t.show_orphans == s.show_orphans,
    ensures
        t.refiltered().filtered.to_multiset() == s.refiltered().filtered.to_multiset(),
        t.refiltered().filtered.len() == s.refiltered().filtered.len(),
{
    let f = |i: usize| listing::shown(s.pkgs[i as int], s.query, s.show_orphans);
    let picked = package::indices(s.pkgs.len()).filter(f);
    listing::ordering_is_total(s.pkgs, s.sort_mode);
    listing::ordering_is_total(s.pkgs, t.sort_mode);
    picked.lemma_sort_by_ensures(listing::ordering(s.pkgs, s.sort_mode));
    picked.lemma_sort_by_ensures(listing::ordering(s.pkgs, t.sort_mode));
    s.refiltered().filtered.to_multiset_ensures();
    t.refiltered().filtered.to_multiset_ensures();
}

/// The state after `key` has been pressed `n` times.
pub open spec fn pressed(s: AppModel, key: Key, n: nat) -> AppModel
    decreases n,
{
    if n == 0 {
        s
    } else {
        pressed(s, key, (n - 1) as nat).key(key, false).0
    }
}

/// The key for the order, pressed three times, and the key for the mode, pressed
/// four times, lead back to where they began.
pub proof fn the_orders_and_the_modes_cycle(s: AppModel)
    requires
        s.wf(),
        s.screen is Browse,
        !s.searching,
    ensures
        pressed(s, Key::Char('s'), 3) == s,
        pressed(s, Key::Tab, 4) == s,
{
    reveal_with_fuel(pressed, 5);
    let first = s.sort_mode.next();
    let second = first.next();
    the_order_only_reorders_the_list(s, AppModel { sort_mode: first, ..s });
    the_order_only_reorders_the_list(s, AppModel { sort_mode: second, ..s });
}

/// Taking the orphan filter on and off, or typing a character of a search and
/// taking it back, leaves the list as it was; the selection can only have moved
/// towards the top.
pub proof fn filters_can_be_taken_back(s: AppModel, c: char, ctrl: bool)
    requires
        s.wf(),
        s.screen is Browse,
        !(c == 'c' && ctrl),
    ensures
        !s.searching ==> ({
            let t = pressed(s, Key::Char('o'), 2);
            t == (AppModel { cursor: t.cursor, ..s }) && t.cursor <= s.cursor
        }),
        s.searching ==> ({
            let t = s.key(Key::Char(c), ctrl).0.key(Key::Backspace, ctrl).0;
            t == (AppModel { cursor: t.cursor, ..s }) && t.cursor <= s.cursor
        }),
{
    reveal_with_fuel(pressed, 3);
    assert(s.query.push(c).drop_last() =~= s.query);
}

/// `Esc` in the list takes off the orphan filter; pressed again, the search as
/// well; after that all packages are listed.
pub proof fn escape_clears_the_filters(s: AppModel)
    requires
        s.wf(),
        s.screen is Browse,
        !s.searching,
    ensures
        pressed(s, Key::Esc, 2).query.len() == 0,
        !pressed(s, Key::Esc, 2).show_orphans,
        pressed(s, Key::Esc, 2).wf(),
        s.show_orphans ==> pressed(s, Key::Esc, 1).query == s.query,
{
    reveal_with_fuel(pressed, 3);
    keys_keep_the_state_valid(s, Key::Esc, false);
    keys_keep_the_state_valid(s.key(Key::Esc, false).0, Key::Esc, false);
    if !(s.query.len() > 0) {
        assert(s.query =~= Seq::empty());
    }
}

/// A dry run is asked for exactly where something is marked.
pub proof fn a_dry_run_needs_marks(s: AppModel)
    requires
        s.screen is Browse,
        !s.searching,
    ensures
        s.key(Key::Char('d'), false).0 == s,
        s.key(Key::Char('d'), false).1 is DryRun <==> !s.marked.is_empty(),
        s.key(Key::Char('d'), false).1 is Stay <==> s.marked.is_empty(),
{
}

/// A dry run is asked for with the name of each marked package, in order, and with
/// the options of the mode.
pub proof fn a_dry_run_names_what_is_marked(s: AppModel, name: Seq<char>)
    requires
        s.wf(),
        s.screen is Browse,
        !s.searching,
        !s.marked.is_empty(),
    ensures
        s.key(Key::Char('d'), false).1 matches ActionModel::DryRun { names, flags } && flags
            == s.mode.flags() && names == listing::names_of(s.pkgs, s.marked),
        listing::names_of(s.pkgs, s.marked).contains(name) <==> exists|i: usize| #[trigger]
            s.marked.contains(i) && s.pkgs[i as int].name@ == name,
        listing::names_of(s.pkgs, s.marked).len() == s.marked.len(),
        forall|k: int, l: int|
            0 <= k < l < listing::names_of(s.pkgs, s.marked).len() ==> order::lex_le(
                #[trigger] listing::names_of(s.pkgs, s.marked)[k],
                #[trigger] listing::names_of(s.pkgs, s.marked)[l],
            ),
{
    let f = |i: usize| s.marked.contains(i);
    let picked = package::indices(s.pkgs.len()).filter(f);
    let leq = package::by_name(listing::names(s.pkgs));
    let sorted = picked.sort_by(leq);
    let names = listing::names_of(s.pkgs, s.marked);
    package::by_name_is_total(listing::names(s.pkgs));
    picked.lemma_sort_by_ensures(leq);
    picked.to_multiset_ensures();
    sorted.to_multiset_ensures();
    lemma_indices_filter_distinct(s.pkgs.len(), f);
    picked.lemma_multiset_has_no_duplicates();
    sorted.lemma_multiset_has_no_duplicates_conv();
    assert forall|i: usize| #[trigger] sorted.contains(i) <==> s.marked.contains(i) by {
        lemma_indices_filter(s.pkgs.len(), f, i);
        assert(sorted.to_multiset().count(i) == picked.to_multiset().count(i));
    }
    assert(sorted.to_set() =~= s.marked);
    sorted.unique_seq_to_set();
    assert(names =~= sorted.map_values(|i: usize| s.pkgs[i as int].name@));
    if names.contains(name) {
        let k = choose|k: int| 0 <= k < names.len() && names[k] == name;
        assert(sorted.contains(sorted[k]));
        assert(s.marked.contains(sorted[k]));
    }
    if exists|i: usize| #[trigger] s.marked.contains(i) && s.pkgs[i as int].name@ == name {
        let i = choose|i: usize| #[trigger]
            s.marked.contains(i) && s.pkgs[i as int].name@ == name;
        assert(sorted.contains(i));
        let k = choose|k: int| 0 <= k < sorted.len() && sorted[k] == i;
        assert(names[k] == name);
    }
    assert forall|k: int, l: int| 0 <= k < l < names.len() implies order::lex_le(
        #[trigger] names[k],
        #[trigger] names[l],
    ) by {
        assert(sorted.contains(sorted[k]) && sorted.contains(sorted[l]));
        assert(leq(sorted[k], sorted[l]));
        assert(listing::names(s.pkgs)[sorted[k] as int] == names[k]);
        assert(listing::names(s.pkgs)[sorted[l] as int] == names[l]);
    }
}

/// The program starts with a valid state: all packages are listed by name, nothing
/// is marked, and removals also remove what nothing else needs.
pub proof fn the_start_is_valid(pkgs: Seq<PkgInfo>)
    requires
        pkgs.len() <= usize::MAX,
    ensures
        AppModel::initial(pkgs).wf(),
        AppModel::initial(pkgs).filtered.len() == pkgs.len(),
        AppModel::initial(pkgs).screen is Browse,
        AppModel::initial(pkgs).marked.is_empty(),
        AppModel::initial(pkgs).mode.flags().recurse,
{
    assert(AppModel::initial(pkgs).wf());
    without_a_filter_all_is_listed(AppModel::initial(pkgs), 0);
}

/// A line that is logged during a removal is the last of the log, and the lines
/// before it are the latest of those that were there.
pub proof fn the_log_keeps_the_latest_lines(s: AppModel, line: Seq<char>)
    requires
        s.wf(),
        s.screen is Removing,
    ensures
        s.logged(line).screen matches ScreenModel::Removing { log, .. } && log.len() > 0
            && log.len() <= model::log_limit() && log.last() == line
            && log.drop_last().is_suffix_of(s.screen->log),
{
    let old_log = s.screen->log;
    if let ScreenModel::Removing { log, .. } = s.logged(line).screen {
        let rest = log.drop_last();
        assert(rest =~= old_log.subrange(old_log.len() - rest.len(), old_log.len() as int));
    }
}

/// In the list, `Space` changes whether the package on the selected row is marked,
/// and changes nothing else: no other mark, and no other part of the state.
pub proof fn space_marks_the_selected_row(s: AppModel, ctrl: bool, i: usize)
    requires
        s.wf(),
        s.screen is Browse,
        !s.searching,
    ensures
        ({
            let (t, action) = s.key(Key::Char(' '), ctrl);
            &&& action == ActionModel::Stay
            &&& t == (AppModel { marked: t.marked, ..s })
            &&& s.filtered.len() == 0 ==> t == s
            &&& s.filtered.len() > 0 ==> (t.marked.contains(i) != s.marked.contains(i) <==> i
                == s.filtered[s.cursor as int])
        }),
{
}

/// In the list, `a` marks all listed packages where one of them is not marked, and
/// takes the marks of all of them off where there is none such; nothing else changes.
pub proof fn one_key_marks_the_whole_list(s: AppModel, ctrl: bool, i: usize)
    requires
        s.screen is Browse,
        !s.searching,
    ensures
        ({
            let (t, action) = s.key(Key::Char('a'), ctrl);
            let all = forall|k: int|
                0 <= k < s.filtered.len() ==> s.marked.contains(#[trigger] s.filtered[k]);
            &&& action == ActionModel::Stay
            &&& t == (AppModel { marked: t.marked, ..s })
            &&& t.marked.contains(i) <==> if exists|k: int|
                0 <= k < s.filtered.len() && #[trigger] s.filtered[k] == i {
                !all
            } else {
                s.marked.contains(i)
            }
        }),
{
    if exists|k: int| 0 <= k < s.filtered.len() && #[trigger] s.filtered[k] == i {
        let k = choose|k: int| 0 <= k < s.filtered.len() && #[trigger] s.filtered[k] == i;
        assert(s.filtered.to_set().contains(s.filtered[k]));
    }
}

/// In the list, `O` marks the packages that were installed as a dependency and that
/// nothing requires, and no others, and chooses the recursive mode; nothing else
/// changes.
pub proof fn one_key_marks_the_orphans(s: AppModel, ctrl: bool, i: usize)
    requires
        s.screen is Browse,
        !s.searching,
    ensures
        ({
            let (t, action) = s.key(Key::Char('O'), ctrl);
            &&& action == ActionModel::Stay
            &&& t == (AppModel { marked: t.marked, mode: Mode::Recursive, ..s })
            &&& t.marked.contains(i) <==> i < s.pkgs.len() && s.pkgs[i as int].reason
                == Reason::Depend && s.pkgs[i as int].required_by@.len() == 0
        }),
{
}

/// The arrow keys and their letters lead to the next row and to the one before,
/// from the last row on to the first and back, the keys for pages ten rows on and
/// back, and `Home` and `End` with their letters to the first row and to the last.
pub proof fn keys_move_the_selection(s: AppModel, ctrl: bool)
    requires
        s.wf(),
        s.screen is Browse,
        !s.searching,
        s.filtered.len() > 0,
    ensures
        ({
            let n = s.filtered.len() as int;
            let at = |c: int| (AppModel { cursor: c as usize, ..s }, ActionModel::Stay);
            let down = at(
                if s.cursor + 1 == n {
                    0
                } else {
                    s.cursor + 1
                },
            );
            let up = at(
                if s.cursor == 0 {
                    n - 1
                } else {
                    s.cursor - 1
                },
            );
            &&& s.key(Key::Down, ctrl) == down
            &&& s.key(Key::Char('j'), ctrl) == down
            &&& s.key(Key::Up, ctrl) == up
            &&& s.key(Key::Char('k'), ctrl) == up
            &&& s.key(Key::PageDown, ctrl) == at((s.cursor + 10) % n)
            &&& s.key(Key::PageUp, ctrl) == at((s.cursor - 10) % n)
            &&& s.key(Key::Home, ctrl) == at(0)
            &&& s.key(Key::Char('g'), ctrl) == at(0)
            &&& s.key(Key::End, ctrl) == at(n - 1)
            &&& s.key(Key::Char('G'), ctrl) == at(n - 1)
        }),
{
    let n = s.filtered.len() as int;
    lemma_moved(s, 1);
    lemma_moved(s, -1);
    lemma_moved(s, 10);
    lemma_moved(s, -10);
    if s.cursor + 1 < n {
        vstd::arithmetic::div_mod::lemma_small_mod((s.cursor + 1) as nat, n as nat);
    } else {
        vstd::arithmetic::div_mod::lemma_mod_self_0(n);
    }
    if s.cursor == 0 {
        vstd::arithmetic::div_mod::lemma_mod_add_multiples_vanish(-1, n);
        vstd::arithmetic::div_mod::lemma_small_mod((n - 1) as nat, n as nat);
    } else {
        vstd::arithmetic::div_mod::lemma_small_mod((s.cursor - 1) as nat, n as nat);
    }
}

/// Whether `t` is `s` with another search, filter or order: the list is made anew,
/// the selection stays where it is or goes to the last row where there are fewer,
/// and the rest is as before.
pub open spec fn relisted(
    s: AppModel,
    t: AppModel,
    query: Seq<char>,
    only_orphans: bool,
    sort: SortMode,
) -> bool {
    &&& t == (AppModel {
        query,
        show_orphans: only_orphans,
        sort_mode: sort,
        filtered: t.filtered,
        cursor: t.cursor,
        ..s
    })
    &&& t.wf()
    &&& t.cursor == if s.cursor < t.filtered.len() {
        s.cursor
    } else if t.filtered.len() > 0 {
        (t.filtered.len() - 1) as usize
    } else {
        0
    }
}

/// While a search is typed, a character goes to its end, `Backspace` takes the last
/// one off, `Enter` and `Esc` end the typing, and no other key does anything.
pub proof fn keys_type_the_search(s: AppModel, key: Key, ctrl: bool)
    requires
        s.wf(),
        s.screen is Browse,
        s.searching,
        !(key == Key::Char('c') && ctrl),
    ensures
        s.key(key, ctrl).1 == ActionModel::Stay,
        match key {
            Key::Char(c) => relisted(
                s,
                s.key(key, ctrl).0,
                s.query + seq![c],
                s.show_orphans,
                s.sort_mode,
            ),
            Key::Backspace => relisted(
                s,
                s.key(key, ctrl).0,
                s.query.take(
                    if s.query.len() == 0 {
                        0
                    } else {
                        s.query.len() - 1
                    },
                ),
                s.show_orphans,
                s.sort_mode,
            ),
            Key::Enter | Key::Esc => s.key(key, ctrl).0 == (AppModel { searching: false, ..s }),
            _ => s.key(key, ctrl).0 == s,
        },
{
    the_list_is_exact(s.pkgs, s.query, s.show_orphans, s.sort_mode);
    keys_keep_the_state_valid(s, key, ctrl);
    let t = s.key(key, ctrl).0;
    the_list_is_exact(t.pkgs, t.query, t.show_orphans, t.sort_mode);
    if let Key::Char(c) = key {
        assert(s.query.push(c) =~= s.query + seq![c]);
    }
    if s.query.len() > 0 {
        assert(s.query.drop_last() =~= s.query.take(s.query.len() - 1));
    } else {
        assert(s.query =~= s.query.take(0));
    }
}

/// In the list, `o` turns the orphan filter on and off, and `s` goes on to the next
/// order. `Esc` takes the orphan filter off or, where there is none, the search.
pub proof fn keys_change_the_list(s: AppModel, ctrl: bool)
    requires
        s.wf(),
        s.screen is Browse,
        !s.searching,
    ensures
        s.key(Key::Char('o'), ctrl).1 == ActionModel::Stay,
        relisted(
            s,
            s.key(Key::Char('o'), ctrl).0,
            s.query,
            !s.show_orphans,
            s.sort_mode,
        ),
        s.key(Key::Char('s'), ctrl).1 == ActionModel::Stay,
        relisted(
            s,
            s.key(Key::Char('s'), ctrl).0,
            s.query,
            s.show_orphans,
            match s.sort_mode {
                SortMode::Name => SortMode::Size,
                SortMode::Size => SortMode::OrphansFirst,
                SortMode::OrphansFirst => SortMode::Name,
            },
        ),
        s.key(Key::Esc, ctrl).1 == ActionModel::Stay,
        relisted(
            s,
            s.key(Key::Esc, ctrl).0,
            if s.show_orphans {
                s.query
            } else {
                Seq::empty()
            },
            false,
            s.sort_mode,
        ),
{
    lemma_browse_key(s, Key::Char('o'));
    lemma_browse_key(s, Key::Char('s'));
    lemma_browse_key(s, Key::Esc);
    let o = s.key(Key::Char('o'), ctrl).0;
    let n = s.key(Key::Char('s'), ctrl).0;
    let e = s.key(Key::Esc, ctrl).0;
    the_list_is_exact(s.pkgs, s.query, s.show_orphans, s.sort_mode);
    the_list_is_exact(o.pkgs, o.query, o.show_orphans, o.sort_mode);
    the_list_is_exact(n.pkgs, n.query, n.show_orphans, n.sort_mode);
    the_list_is_exact(e.pkgs, e.query, e.show_orphans, e.sort_mode);
    if s.query.len() == 0 {
        assert(s.query =~= Seq::empty());
    }
}

/// In the list, the other keys that do something: `/` begins a search, `?` opens the
/// help, the digits and `Tab` choose the mode, `r` asks for the packages to be read
/// again, and `q` ends the program.
pub proof fn keys_of_the_list(s: AppModel, ctrl: bool)
    requires
        s.screen is Browse,
        !s.searching,
    ensures
        s.key(Key::Char('/'), ctrl) == (AppModel { searching: true, ..s }, ActionModel::Stay),
        s.key(Key::Char('?'), ctrl) == (
            AppModel { screen: ScreenModel::Help, ..s },
            ActionModel::Stay,
        ),
        s.key(Key::Char('1'), ctrl) == (AppModel { mode: Mode::Simple, ..s }, ActionModel::Stay),
        s.key(Key::Char('2'), ctrl) == (
            AppModel { mode: Mode::Recursive, ..s },
            ActionModel::Stay,
        ),
        s.key(Key::Char('3'), ctrl) == (AppModel { mode: Mode::Full, ..s }, ActionModel::Stay),
        s.key(Key::Char('4'), ctrl) == (AppModel { mode: Mode::Force, ..s }, ActionModel::Stay),
        s.key(Key::Tab, ctrl) == (
            AppModel {
                mode: match s.mode {
                    Mode::Simple => Mode::Recursive,
                    Mode::Recursive => Mode::Full,
                    Mode::Full => Mode::Force,
                    Mode::Force => Mode::Simple,
                },
                ..s
            },
            ActionModel::Stay,
        ),
        s.key(Key::Char('r'), ctrl) == (s, ActionModel::Refresh),
        s.key(Key::Char('q'), ctrl) == (s, ActionModel::Quit),
{
}

/// In the list, a key without a meaning does nothing.
pub proof fn other_keys_do_nothing(s: AppModel, key: Key, ctrl: bool)
    requires
        s.screen is Browse,
        !s.searching,
        !(key == Key::Char('c') && ctrl),
        match key {
            Key::Char(c) => c != 'q' && c != '/' && c != '?' && c != 'j' && c != 'k' && c != 'g' && c
                != 'G' && c != ' ' && c != 'a' && c != 'O' && c != 'd' && c != 'r' && c != 'o' && c
                != 's' && c != '1' && c != '2' && c != '3' && c != '4',
            Key::Enter | Key::Backspace | Key::Other => true,
            _ => false,
        },
    ensures
        s.key(key, ctrl) == (s, ActionModel::Stay),
{
}

/// Every key closes the help and the message at the end of a removal.
pub proof fn any_key_closes_a_message(s: AppModel, key: Key, ctrl: bool)
    requires
        s.screen is Help || s.screen is Finished,
        !(key == Key::Char('c') && ctrl),
    ensures
        s.key(key, ctrl) == (AppModel { screen: ScreenModel::Browse, ..s }, ActionModel::Stay),
{
}

/// In the dialog, a character goes to the end of the answer and `Backspace` takes the
/// last one off. `Enter` begins the removal where the answer, without white space at
/// its ends, is `yes`, and does nothing otherwise; no other key but `Esc` does
/// anything.
pub proof fn keys_type_the_answer(s: AppModel, key: Key, ctrl: bool)
    requires
        s.screen is Confirm,
        !(key == Key::Char('c') && ctrl),
    ensures
        s.screen matches ScreenModel::Confirm { targets, freed, warnings, input, flags } && ({
            let typed = |answer: Seq<char>|
                (
                    AppModel {
                        screen: ScreenModel::Confirm {
                            targets,
                            freed,
                            warnings,
                            input: answer,
                            flags,
                        },
                        ..s
                    },
                    ActionModel::Stay,
                );
            match key {
                Key::Char(c) => s.key(key, ctrl) == typed(input + seq![c]),
                Key::Backspace => s.key(key, ctrl) == typed(
                    input.take(
                        if input.len() == 0 {
                            0
                        } else {
                            input.len() - 1
                        },
                    ),
                ),
                Key::Esc => s.key(key, ctrl) == (
                    AppModel { screen: ScreenModel::Browse, ..s },
                    ActionModel::Stay,
                ),
                Key::Enter => if text::trimmed(input) == "yes"@ {
                    s.key(key, ctrl) == (
                        AppModel {
                            screen: ScreenModel::Removing {
                                progress: 0,
                                current_pkg: Seq::empty(),
                                log: seq!["Initialising transaction…"@],
                            },
                            ..s
                        },
                        ActionModel::Remove { targets, flags },
                    )
                } else {
                    s.key(key, ctrl) == (s, ActionModel::Stay)
                },
                _ => s.key(key, ctrl) == (s, ActionModel::Stay),
            }
        }),
{
    if let ScreenModel::Confirm { input, .. } = s.screen {
        if let Key::Char(c) = key {
            assert(input.push(c) =~= input + seq![c]);
        }
        if input.len() > 0 {
            assert(input.drop_last() =~= input.take(input.len() - 1));
        } else {
            assert(input =~= input.take(0));
        }
    }
}

/// What the messages of a dry run do: a report opens the dialog with all that it
/// holds, an empty answer and the options of the mode; an error is shown.
pub proof fn messages_of_a_dry_run(
    s: AppModel,
    targets: Seq<Seq<char>>,
    freed: i64,
    warnings: Seq<Seq<char>>,
    error: Seq<char>,
    reloaded: Option<Seq<PkgInfo>>,
)
    ensures
        s.message(MessageModel::DryRunOk { targets, freed, warnings }, reloaded) == (AppModel {
            screen: ScreenModel::Confirm {
                targets,
                freed,
                warnings,
                input: Seq::empty(),
                flags: s.mode.flags(),
            },
            ..s
        }),
        s.message(MessageModel::DryRunErr(error), reloaded) == (AppModel {
            screen: ScreenModel::Finished { success: false, message: error },
            ..s
        }),
{
}

/// What the messages of a removal do while it goes on: a line goes to the end of the
/// log, of which the latest thirty are kept, and the progress and the package are
/// shown. Outside a removal they do nothing.
pub proof fn messages_of_a_removal(
    s: AppModel,
    line: Seq<char>,
    percent: u8,
    pkg: Seq<char>,
    reloaded: Option<Seq<PkgInfo>>,
)
    requires
        s.wf(),
    ensures
        match s.screen {
            ScreenModel::Removing { progress, current_pkg, log } => {
                let longer = log + seq![line];
                let first: int = if longer.len() > 30 {
                    1
                } else {
                    0
                };
                &&& s.message(MessageModel::Log(line), reloaded) == (AppModel {
                    screen: ScreenModel::Removing {
                        progress,
                        current_pkg,
                        log: longer.subrange(first, longer.len() as int),
                    },
                    ..s
                })
                &&& longer.len() - first <= 30
                &&& s.message(MessageModel::Progress(percent, pkg), reloaded) == (AppModel {
                    screen: ScreenModel::Removing { progress: percent, current_pkg: pkg, log },
                    ..s
                })
            },
            _ => {
                &&& s.message(MessageModel::Log(line), reloaded) == s
                &&& s.message(MessageModel::Progress(percent, pkg), reloaded) == s
            },
        },
{
    if let ScreenModel::Removing { log, .. } = s.screen {
        let longer = log + seq![line];
        assert(longer =~= log.push(line));
        assert(longer.drop_first() =~= longer.subrange(1, longer.len() as int));
        assert(longer =~= longer.subrange(0, longer.len() as int));
    }
}

/// What the end of a removal does: a failure is shown. After a success the packages
/// are those that are installed now, none of them is marked, and the success is shown;
/// where they could not be read, all but the screen is as before.
pub proof fn messages_at_the_end(
    s: AppModel,
    error: Seq<char>,
    pkgs: Seq<PkgInfo>,
    reloaded: Option<Seq<PkgInfo>>,
)
    requires
        s.wf(),
        pkgs.len() <= usize::MAX,
    ensures
        ({
            let done = ScreenModel::Finished {
                success: true,
                message: "Packages removed successfully."@,
            };
            let t = s.message(MessageModel::Done(Ok(())), Some(pkgs));
            &&& s.message(MessageModel::Done(Err(error)), reloaded) == (AppModel {
                screen: ScreenModel::Finished { success: false, message: error },
                ..s
            })
            &&& s.message(MessageModel::Done(Ok(())), None) == (AppModel { screen: done, ..s })
            &&& relisted(
                AppModel { pkgs, marked: Set::empty(), screen: done, ..s },
                t,
                s.query,
                s.show_orphans,
                s.sort_mode,
            )
        }),
{
    messages_keep_the_state_valid(s, MessageModel::Done(Ok(())), Some(pkgs));
    the_list_is_exact(pkgs, s.query, s.show_orphans, s.sort_mode);
}

/// Packages that were read again take the place of those that were there. The marks
/// stay where they are, as far as there is a package; search, filter, order, mode and
/// screen do not change.
pub proof fn a_refresh_keeps_all_but_the_packages(
    s: AppModel,
    pkgs: Seq<PkgInfo>,
    reloaded: Option<Seq<PkgInfo>>,
    i: usize,
)
    requires
        s.wf(),
        pkgs.len() <= usize::MAX,
    ensures
        ({
            let t = s.message(MessageModel::Refreshed(pkgs), reloaded);
            &&& relisted(
                AppModel { pkgs, marked: t.marked, ..s },
                t,
                s.query,
                s.show_orphans,
                s.sort_mode,
            )
            &&& t.marked.contains(i) <==> s.marked.contains(i) && i < pkgs.len()
        }),
{
    the_list_is_exact(pkgs, s.query, s.show_orphans, s.sort_mode);
}

/// In every state, exactly those packages are listed, each once, that the orphan
/// filter and the search leave: with the filter on, only what was installed as a
/// dependency and is not required by anything; and of these the packages whose name,
/// description or version holds the search, upper and lower case being the same.
pub proof fn the_filters_work_together(s: AppModel, i: usize)
    requires
        s.wf(),
    ensures
        s.filtered.contains(i) <==> i < s.pkgs.len() && ({
            let p = s.pkgs[i as int];
            let q = text::lowered(s.query);
            let name = text::lowered(p.name@);
            let desc = text::lowered(p.desc@);
            let version = text::lowered(p.version@);
            &&& !s.show_orphans || (p.reason == Reason::Depend && p.required_by@.len() == 0)
            &&& q.len() == 0 || (exists|k: int|
                0 <= k <= name.len() - q.len() && #[trigger] name.subrange(k, k + q.len()) == q)
                || (exists|k: int|
                0 <= k <= desc.len() - q.len() && #[trigger] desc.subrange(k, k + q.len()) == q)
                || (exists|k: int|
                0 <= k <= version.len() - q.len() && #[trigger] version.subrange(
                    k,
                    k + q.len(),
                ) == q)
        }),
        s.filtered.no_duplicates(),
        s.cursor < s.filtered.len() || (s.cursor == 0 && s.filtered.len() == 0),
        s.marked.contains(i) ==> i < s.pkgs.len(),
{
    the_list_is_exact(s.pkgs, s.query, s.show_orphans, s.sort_mode);
}

/// The list with the orphan filter is the list of the same search without it, with
/// all but the orphans taken out.
pub proof fn the_orphan_filter_restricts_the_search(
    pkgs: Seq<PkgInfo>,
    query: Seq<char>,
    mode: SortMode,
)
    requires
        pkgs.len() <= usize::MAX,
    ensures
        listing::listing(pkgs, query, true, mode) == listing::listing(
            pkgs,
            query,
            false,
            mode,
        ).filter(
            |i: usize|
                pkgs[i as int].reason == Reason::Depend && pkgs[i as int].required_by@.len() == 0,
        ),
{
    let f = |i: usize|
        pkgs[i as int].reason == Reason::Depend && pkgs[i as int].required_by@.len() == 0;
    let few = listing::listing(pkgs, query, true, mode);
    let all = listing::listing(pkgs, query, false, mode);
    let leq = listing::ordering(pkgs, mode);
    let kept = all.filter(f);
    the_list_is_exact(pkgs, query, true, mode);
    the_list_is_exact(pkgs, query, false, mode);
    listing::ordering_is_total(pkgs, mode);
    lemma_filter_sorted(all, f, leq);
    assert forall|i: usize| kept.contains(i) <==> few.contains(i) by {
        if kept.contains(i) {
            let k = choose|k: int| 0 <= k < kept.len() && kept[k] == i;
            all.lemma_filter_contains_rev(f, i);
            all.lemma_filter_pred(f, k);
            assert(all.contains(i));
        }
        if few.contains(i) {
            assert(all.contains(i));
            let k = choose|k: int| 0 <= k < all.len() && all[k] == i;
            all.lemma_filter_contains(f, k);
        }
    }
    lemma_same_elements(few, kept);
    order::sorted_is_unique(few, kept, leq);
}

proof fn lemma_filter_sorted(
    s: Seq<usize>,
    f: spec_fn(usize) -> bool,
    leq: spec_fn(usize, usize) -> bool,
)
    requires
        sorted_by(s, leq),
        s.no_duplicates(),
    ensures
        sorted_by(s.filter(f), leq),
        s.filter(f).no_duplicates(),
    decreases s.len(),
{
    reveal(Seq::filter);
    if s.len() > 0 {
        let rest = s.drop_last();
        let e = s.last();
        assert forall|k: int, l: int| 0 <= k < l < rest.len() implies leq(rest[k], rest[l]) by {
            assert(leq(s[k], s[l]));
        }
        lemma_filter_sorted(rest, f, leq);
        let kept = rest.filter(f);
        assert forall|k: int| 0 <= k < kept.len() implies leq(#[trigger] kept[k], e) && kept[k]
            != e by {
            assert(kept.contains(kept[k]));
            rest.lemma_filter_contains_rev(f, kept[k]);
            let l = choose|l: int| 0 <= l < rest.len() && rest[l] == kept[k];
            assert(s[l] == kept[k]);
            assert(leq(s[l], s[s.len() - 1]));
        }
    }
}

proof fn lemma_same_elements(a: Seq<usize>, b: Seq<usize>)
    requires
        a.no_duplicates(),
        b.no_duplicates(),
        forall|e: usize| a.contains(e) <==> b.contains(e),
    ensures
        a.to_multiset() == b.to_multiset(),
{
    a.to_multiset_ensures();
    b.to_multiset_ensures();
    a.lemma_multiset_has_no_duplicates();
    b.lemma_multiset_has_no_duplicates();
    assert forall|e: usize| a.to_multiset().count(e) == b.to_multiset().count(e) by {
        assert(a.contains(e) <==> b.contains(e));
        assert(a.contains(e) <==> a.to_multiset().count(e) > 0);
        assert(b.contains(e) <==> b.to_multiset().count(e) > 0);
        if a.contains(e) {
            assert(a.to_multiset().contains(e));
            assert(b.to_multiset().contains(e));
        }
    }
    assert(a.to_multiset() =~= b.to_multiset());
}

/// Of two packages that are equal in the chosen order, the one at the earlier place
/// is listed first.
pub proof fn equal_packages_keep_their_order(s: AppModel, k: int, l: int)
    requires
        s.wf(),
        0 <= k < l < s.filtered.len(),
        ({
            let p = s.pkgs[s.filtered[k] as int];
            let q = s.pkgs[s.filtered[l] as int];
            match s.sort_mode {
                SortMode::Name => p.name@ == q.name@,
                SortMode::Size => p.size == q.size,
                SortMode::OrphansFirst => p.name@ == q.name@ && p.orphan() == q.orphan(),
            }
        }),
    ensures
        s.filtered[k] < s.filtered[l],
{
    the_list_is_in_order(s, k, l);
    the_list_is_exact(s.pkgs, s.query, s.show_orphans, s.sort_mode);
    let leq = listing::ordering(s.pkgs, s.sort_mode);
    assert(leq(s.filtered[k], s.filtered[l]));
    listed_packages_exist(s, k);
    listed_packages_exist(s, l);
    assert(listing::names(s.pkgs)[s.filtered[k] as int] == s.pkgs[s.filtered[k] as int].name@);
    assert(listing::names(s.pkgs)[s.filtered[l] as int] == s.pkgs[s.filtered[l] as int].name@);
}

/// The names with which a dry run is asked for are those of the marked places, each
/// place once.
pub proof fn a_dry_run_names_each_mark_once(s: AppModel)
    requires
        s.wf(),
    ensures
        exists|places: Seq<usize>| #[trigger]
            places.no_duplicates() && places.to_set() == s.marked && listing::names_of(
                s.pkgs,
                s.marked,
            ) == Seq::new(places.len(), |k: int| s.pkgs[places[k] as int].name@),
{
    let f = |i: usize| s.marked.contains(i);
    let picked = package::indices(s.pkgs.len()).filter(f);
    let leq = package::by_name(listing::names(s.pkgs));
    let sorted = picked.sort_by(leq);
    package::by_name_is_total(listing::names(s.pkgs));
    picked.lemma_sort_by_ensures(leq);
    picked.to_multiset_ensures();
    sorted.to_multiset_ensures();
    lemma_indices_filter_distinct(s.pkgs.len(), f);
    picked.lemma_multiset_has_no_duplicates();
    sorted.lemma_multiset_has_no_duplicates_conv();
    assert forall|i: usize| #[trigger] sorted.contains(i) <==> s.marked.contains(i) by {
        lemma_indices_filter(s.pkgs.len(), f, i);
        assert(sorted.to_multiset().count(i) == picked.to_multiset().count(i));
    }
    assert(sorted.to_set() =~= s.marked);
    assert(listing::names_of(s.pkgs, s.marked) =~= Seq::new(
        sorted.len(),
        |k: int| s.pkgs[sorted[k] as int].name@,
    ));
    assert(sorted.no_duplicates());
}

/// The program starts in the list, with the first package selected, nothing marked,
/// no search and no filter, the order by name and the recursive mode.
pub proof fn the_start(pkgs: Seq<PkgInfo>)
    ensures
        ({
            let s = AppModel::initial(pkgs);
            &&& s.pkgs == pkgs
            &&& s.cursor == 0
            &&& s.marked == Set::<usize>::empty()
            &&& s.query == Seq::<char>::empty()
            &&& s.mode == Mode::Recursive
            &&& s.sort_mode == SortMode::Name
            &&& !s.show_orphans
            &&& s.screen == ScreenModel::Browse
            &&& !s.searching
        }),
{
}

/// The number of orphans grows by one with each orphan, and with no other package.
pub proof fn orphans_are_counted_one_by_one(pkgs: Seq<PkgInfo>, p: PkgInfo)
    ensures
        listing::orphans(Seq::empty()) == 0,
        listing::orphans(pkgs.push(p)) == listing::orphans(pkgs) + if p.reason == Reason::Depend
            && p.required_by@.len() == 0 {
            1int
        } else {
            0
        },
{
    reveal(Seq::filter);
    listing::lemma_filter_push(pkgs, p, |p: PkgInfo| p.orphan());
}

/// Each mark adds the size of its package to the size of what is marked. Nothing is
/// marked without it.
pub proof fn each_mark_adds_its_size(pkgs: Seq<PkgInfo>, marked: Set<usize>, i: usize)
    requires
        i < pkgs.len() <= usize::MAX,
        !marked.contains(i),
    ensures
        listing::size_sum(pkgs, Set::empty(), pkgs.len()) == 0,
        listing::size_sum(pkgs, marked.insert(i), pkgs.len()) == listing::size_sum(
            pkgs,
            marked,
            pkgs.len(),
        ) + pkgs[i as int].size,
{
    lemma_size_sum(pkgs, marked, i, pkgs.len());
    lemma_no_size(pkgs, pkgs.len());
}

proof fn lemma_size_sum(pkgs: Seq<PkgInfo>, marked: Set<usize>, i: usize, n: nat)
    requires
        n <= pkgs.len() <= usize::MAX,
        !marked.contains(i),
    ensures
        listing::size_sum(pkgs, marked.insert(i), n) == listing::size_sum(pkgs, marked, n) + if i
            < n {
            pkgs[i as int].size as int
        } else {
            0
        },
    decreases n,
{
    if n > 0 {
        lemma_size_sum(pkgs, marked, i, (n - 1) as nat);
    }
}

proof fn lemma_no_size(pkgs: Seq<PkgInfo>, n: nat)
    ensures
        listing::size_sum(pkgs, Set::empty(), n) == 0,
    decreases n,
{
    if n > 0 {
        lemma_no_size(pkgs, (n - 1) as nat);
    }
}

/// What is left of a sum that does not fit differs from it by a multiple of two to
/// the power of 64, and fits.
pub proof fn sums_lose_whole_multiples(x: int)
    ensures
        (x - listing::wrapped(x)) % 0x1_0000_0000_0000_0000 == 0,
        i64::MIN <= listing::wrapped(x) <= i64::MAX,
{
}

/// In an empty list there is nothing to move to.
pub proof fn an_empty_list_does_not_move(s: AppModel, key: Key, ctrl: bool)
    requires
        s.wf(),
        s.screen is Browse,
        !s.searching,
        s.filtered.len() == 0,
        key == Key::Up || key == Key::Down || key == Key::PageUp || key == Key::PageDown || key
            == Key::Home || key == Key::End || key == Key::Char('j') || key == Key::Char('k')
            || key == Key::Char('g') || key == Key::Char('G'),
    ensures
        s.key(key, ctrl) == (s, ActionModel::Stay),
{
}

/// `Ctrl` makes a difference for `c` alone.
pub proof fn ctrl_matters_for_one_key(s: AppModel, key: Key)
    requires
        key != Key::Char('c'),
    ensures
        s.key(key, true) == s.key(key, false),
{
}

/// Making the list anew changes the list, and the selection only where it would be
/// behind the last row: then it goes to the last row.
pub proof fn the_selection_stays_in_the_list(s: AppModel)
    requires
        s.pkgs.len() <= usize::MAX,
    ensures
        ({
            let t = s.refiltered();
            let n = t.filtered.len();
            &&& t == (AppModel { filtered: t.filtered, cursor: t.cursor, ..s })
            &&& t.filtered == listing::listing(s.pkgs, s.query, s.show_orphans, s.sort_mode)
            &&& s.cursor < n ==> t.cursor == s.cursor
            &&& n == 0 ==> t.cursor == 0
            &&& 0 < n <= s.cursor ==> t.cursor == n - 1
        }),
{
    the_list_is_exact(s.pkgs, s.query, s.show_orphans, s.sort_mode);
}

/// Where there is no dialog, there is no answer to type: only `Esc` does something, and
/// leads to the list.
pub proof fn answers_need_a_dialog(s: AppModel, key: Key)
    requires
        !(s.screen is Confirm),
    ensures
        s.confirm_key(key) == if key == Key::Esc {
            (AppModel { screen: ScreenModel::Browse, ..s }, ActionModel::Stay)
        } else {
            (s, ActionModel::Stay)
        },
{
}

} // verus!
