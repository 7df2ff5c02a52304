//! Packages, and how the list of the installed ones is built from what the
//! package database holds.

use crate::order;
use crate::order::{sort, str_le, Ranking};
use crate::text;
use crate::text::push_view;
use vstd::hash_map::StringHashMap;
use vstd::prelude::*;
use vstd::relations::total_ordering;

verus! {

/// Why a package is installed.
#[derive(Clone, Copy, PartialEq, Eq, Debug, Structural)]
pub enum Reason {
    /// The user asked for it.
    Explicit,
    /// Another package needed it.
    Depend,
}

/// A package as the database describes it.
#[derive(Debug)]
pub struct RawPkg {
    pub name: String,
    pub version: String,
    pub desc: Option<String>,
    pub size: i64,
    pub reason: Reason,
    /// The names of its dependencies.
    pub depends: Vec<String>,
    /// The names of its optional dependencies.
    pub optdeps: Vec<String>,
}

/// An installed package.
#[derive(Debug)]
pub struct PkgInfo {
    pub name: String,
    pub version: String,
    pub desc: String,
    pub size: i64,
    pub reason: Reason,
    pub depends: Vec<String>,
    pub optdeps: Vec<String>,
    /// The names of the packages that depend on this one.
    pub required_by: Vec<String>,
}

impl PkgInfo {
    /// Whether the package was installed as a dependency and nothing requires it.
    pub open spec fn orphan(self) -> bool {
        self.reason == Reason::Depend && self.required_by@.len() == 0
    }

    /// Whether the package was installed as a dependency and nothing requires it.
    pub fn is_orphan(&self) -> (r: bool)
        ensures
            r == self.orphan(),
    {
        self.reason == Reason::Depend && self.required_by.is_empty()
    }
}

/// The places `0` to `n - 1`.
pub open spec fn indices(n: nat) -> Seq<usize> {
    Seq::new(n, |i: int| i as usize)
}

/// The places `0` to `n - 1`.
pub fn all_indices(n: usize) -> (r: Vec<usize>)
    ensures
        r@ == indices(n as nat),
{
    let mut r: Vec<usize> = Vec::new();
    let mut i: usize = 0;
    while i < n
        invariant
            i <= n,
            r@ == indices(i as nat),
        decreases n - i,
    {
        r.push(i);
        i += 1;
        assert(r@ =~= indices(i as nat));
    }
    r
}

/// Whether the name at place `a` stands before the one at `b`; of two equal
/// names, the one at the earlier place.
pub open spec fn name_before(names: Seq<Seq<char>>, a: usize, b: usize) -> bool {
    order::lex_le(names[a as int], names[b as int]) && (names[a as int] == names[b as int] ==> a
        <= b)
}

/// The order of the places of `names` by name.
pub open spec fn by_name(names: Seq<Seq<char>>) -> spec_fn(usize, usize) -> bool {
    |a: usize, b: usize| name_before(names, a, b)
}

/// Ordering places by name puts any two of them into a sequence.
pub proof fn by_name_is_total(names: Seq<Seq<char>>)
    ensures
        total_ordering(by_name(names)),
{
    let leq = by_name(names);
    assert forall|a: usize| #[trigger] leq(a, a) by {
        order::lex_le_is_reflexive(names[a as int]);
    }
    assert forall|a: usize, b: usize| #[trigger] leq(a, b) && #[trigger] leq(b, a) implies a
        == b by {
        order::lex_le_is_antisymmetric(names[a as int], names[b as int]);
    }
    assert forall|a: usize, b: usize| #[trigger] leq(a, b) || #[trigger] leq(b, a) by {
        order::lex_le_is_total(names[a as int], names[b as int]);
        order::lex_le_is_reflexive(names[a as int]);
        if order::lex_le(names[a as int], names[b as int]) && order::lex_le(
            names[b as int],
            names[a as int],
        ) {
            order::lex_le_is_antisymmetric(names[a as int], names[b as int]);
        }
    }
    assert forall|a: usize, b: usize, c: usize| #[trigger]
        leq(a, b) && #[trigger] leq(b, c) implies leq(a, c) by {
        order::lex_le_is_transitive(names[a as int], names[b as int], names[c as int]);
        if names[a as int] == names[c as int] {
            order::lex_le_is_antisymmetric(names[a as int], names[b as int]);
        }
    }
}

/// The names of the packages of `raw`.
pub open spec fn raw_names(raw: Seq<RawPkg>) -> Seq<Seq<char>> {
    raw.map_values(|p: RawPkg| p.name@)
}

struct RawByName<'a> {
    raw: &'a Vec<RawPkg>,
}

impl<'a> Ranking for RawByName<'a> {
    closed spec fn covers(&self, a: usize) -> bool {
        a < self.raw@.len()
    }

    closed spec fn order(&self) -> spec_fn(usize, usize) -> bool {
        by_name(raw_names(self.raw@))
    }

    proof fn order_is_total(&self) {
        by_name_is_total(raw_names(self.raw@));
    }

    fn before(&self, a: usize, b: usize) -> (r: bool) {
        let x = &self.raw[a].name;
        let y = &self.raw[b].name;
        str_le(x.as_str(), y.as_str()) && (a <= b || *x != *y)
    }
}

/// How often `name` stands among `deps`.
pub open spec fn mentions(deps: Seq<Seq<char>>, name: Seq<char>) -> nat
    decreases deps.len(),
{
    if deps.len() == 0 {
        0
    } else if deps.last() == name {
        mentions(deps.drop_last(), name) + 1
    } else {
        mentions(deps.drop_last(), name)
    }
}

/// `n` times the string `s`.
pub open spec fn copies(s: Seq<char>, n: nat) -> Seq<Seq<char>> {
    Seq::new(n, |i: int| s)
}

/// The names of the packages that depend on `name`, in the order of the
/// database, each as often as its dependencies mention it.
pub open spec fn requirers(raw: Seq<RawPkg>, name: Seq<char>) -> Seq<Seq<char>>
    decreases raw.len(),
{
    if raw.len() == 0 {
        Seq::empty()
    } else {
        let p = raw.last();
        requirers(raw.drop_last(), name) + copies(
            p.name@,
            mentions(text::views(p.depends@), name),
        )
    }
}

/// For each name, a list of the packages that depend on it.
struct Requirers {
    /// The place in `lists` of each name that has a list.
    slots: StringHashMap<usize>,
    lists: Vec<Vec<String>>,
}

impl Requirers {
    spec fn wf(self) -> bool {
        &&& forall|n: Seq<char>| #[trigger]
            self.slots@.contains_key(n) ==> self.slots@[n] < self.lists@.len()
        &&& forall|n: Seq<char>, m: Seq<char>| #[trigger]
            self.slots@.contains_key(n) && #[trigger] self.slots@.contains_key(m)
                && self.slots@[n] == self.slots@[m] ==> n == m
    }

    /// What is listed for `name`.
    spec fn listed(self, name: Seq<char>) -> Seq<Seq<char>> {
        if self.slots@.contains_key(name) {
            text::views(self.lists@[self.slots@[name] as int]@)
        } else {
            Seq::empty()
        }
    }

    fn new() -> (r: Requirers)
        ensures
            r.wf(),
            forall|n: Seq<char>| #[trigger] r.listed(n) == Seq::<Seq<char>>::empty(),
    {
        Requirers { slots: StringHashMap::new(), lists: Vec::new() }
    }

    /// Lists `by` for `name`.
    fn note(&mut self, name: &String, by: &String)
        requires
            old(self).wf(),
        ensures
            final(self).wf(),
            forall|n: Seq<char>| #[trigger]
                final(self).listed(n) == if n == name@ {
                    old(self).listed(n).push(by@)
                } else {
                    old(self).listed(n)
                },
    {
        let found = match self.slots.get(name.as_str()) {
            Some(k) => Some(*k),
            None => None,
        };
        match found {
            Some(k) => {
                push_view(&mut self.lists[k], by.clone());
            },
            None => {
                let mut list: Vec<String> = Vec::new();
                push_view(&mut list, by.clone());
                assert(text::views(list@) =~= seq![by@]);
                assert(seq![by@] =~= Seq::<Seq<char>>::empty().push(by@));
                self.slots.insert(name.clone(), self.lists.len());
                self.lists.push(list);
            },
        }
    }

    /// What is listed for `name`.
    fn get(&self, name: &str) -> (r: Vec<String>)
        requires
            self.wf(),
        ensures
            text::views(r@) == self.listed(name@),
    {
        match self.slots.get(name) {
            Some(k) => clone_strings(&self.lists[*k]),
            None => {
                let r: Vec<String> = Vec::new();
                assert(text::views(r@) =~= Seq::<Seq<char>>::empty());
                r
            },
        }
    }
}

/// Copies a list of strings.
pub fn clone_strings(v: &Vec<String>) -> (r: Vec<String>)
    ensures
        text::views(r@) == text::views(v@),
{
    let mut r: Vec<String> = Vec::new();
    let mut i: usize = 0;
    while i < v.len()
        invariant
            i <= v.len(),
            text::views(r@) == text::views(v@).take(i as int),
        decreases v.len() - i,
    {
        push_view(&mut r, v[i].clone());
        assert(text::views(v@).take(i as int + 1) =~= text::views(v@).take(i as int).push(v@[i as int]@));
        i += 1;
    }
    assert(text::views(v@).take(v@.len() as int) =~= text::views(v@));
    r
}

/// All dependencies of all packages, turned round.
fn collect_requirers(raw: &Vec<RawPkg>) -> (r: Requirers)
    ensures
        r.wf(),
        forall|n: Seq<char>| #[trigger] r.listed(n) == requirers(raw@, n),
{
    let mut r = Requirers::new();
    let mut i: usize = 0;
    while i < raw.len()
        invariant
            i <= raw.len(),
            r.wf(),
            forall|n: Seq<char>| #[trigger] r.listed(n) == requirers(raw@.take(i as int), n),
        decreases raw.len() - i,
    {
        let p = &raw[i];
        let ghost deps = text::views(p.depends@);
        let ghost before = r;
        let mut j: usize = 0;
        proof {
            assert forall|n: Seq<char>| #[trigger] r.listed(n) == before.listed(n) + copies(
                p.name@,
                mentions(deps.take(0), n),
            ) by {
                assert(before.listed(n) + copies(p.name@, 0) =~= before.listed(n));
            }
        }
        while j < p.depends.len()
            invariant
                j <= p.depends.len(),
                deps == text::views(p.depends@),
                r.wf(),
                forall|n: Seq<char>| #[trigger]
                    r.listed(n) == before.listed(n) + copies(
                        p.name@,
                        mentions(deps.take(j as int), n),
                    ),
            decreases p.depends.len() - j,
        {
            let ghost earlier = r;
            r.note(&p.depends[j], &p.name);
            proof {
                let longer = deps.take(j as int + 1);
                assert(longer.drop_last() =~= deps.take(j as int));
                assert forall|n: Seq<char>| #[trigger] r.listed(n) == before.listed(n) + copies(
                    p.name@,
                    mentions(longer, n),
                ) by {
                    assert(earlier.listed(n) == before.listed(n) + copies(
                        p.name@,
                        mentions(deps.take(j as int), n),
                    ));
                    assert(r.listed(n) =~= before.listed(n) + copies(
                        p.name@,
                        mentions(longer, n),
                    ));
                }
            }
            j += 1;
        }
        proof {
            let longer = raw@.take(i as int + 1);
            assert(longer.drop_last() =~= raw@.take(i as int));
            assert(deps.take(deps.len() as int) =~= deps);
            assert forall|n: Seq<char>| #[trigger] r.listed(n) == requirers(longer, n) by {
                assert(before.listed(n) == requirers(raw@.take(i as int), n));
            }
        }
        i += 1;
    }
    assert(raw@.take(raw@.len() as int) =~= raw@);
    r
}

/// Whether `p` describes the package at place `k` of the database.
pub open spec fn describes(p: PkgInfo, raw: Seq<RawPkg>, k: usize) -> bool {
    let q = raw[k as int];
    &&& p.name@ == q.name@
    &&& p.version@ == q.version@
    &&& p.desc@ == match q.desc {
        Some(d) => d@,
        None => Seq::empty(),
    }
    &&& p.size == q.size
    &&& p.reason == q.reason
    &&& text::views(p.depends@) == text::views(q.depends@)
    &&& text::views(p.optdeps@) == text::views(q.optdeps@)
    &&& text::views(p.required_by@) == requirers(raw, q.name@)
}

/// The places of the database in the order of the names.
pub open spec fn sorted_places(raw: Seq<RawPkg>) -> Seq<usize> {
    indices(raw.len()).sort_by(by_name(raw_names(raw)))
}

/// The list of the installed packages, sorted by name, each with the packages
/// that depend on it.
pub fn load_packages(raw: &Vec<RawPkg>) -> (r: Vec<PkgInfo>)
    ensures
        r@.len() == raw@.len(),
        sorted_places(raw@).len() == raw@.len(),
        forall|i: int|
            0 <= i < r@.len() ==> sorted_places(raw@)[i] < raw@.len() && describes(
                #[trigger] r@[i],
                raw@,
                sorted_places(raw@)[i],
            ),
{
    let required = collect_requirers(raw);
    let all = all_indices(raw.len());
    let ghost places = all@;
    let ranking = RawByName { raw };
    let sorted = sort(&ranking, all);
    proof {
        places.to_multiset_ensures();
        sorted@.to_multiset_ensures();
        assert forall|k: int| 0 <= k < sorted@.len() implies #[trigger] sorted@[k] < raw@.len() by {
            assert(sorted@.contains(sorted@[k]));
            assert(sorted@.to_multiset().count(sorted@[k]) > 0);
            assert(places.contains(sorted@[k]));
        }
    }
    let mut r: Vec<PkgInfo> = Vec::new();
    let mut i: usize = 0;
    while i < sorted.len()
        invariant
            i <= sorted.len(),
            sorted@ == sorted_places(raw@),
            required.wf(),
            forall|n: Seq<char>| #[trigger] required.listed(n) == requirers(raw@, n),
            forall|k: int| 0 <= k < sorted@.len() ==> #[trigger] sorted@[k] < raw@.len(),
            r@.len() == i,
            forall|k: int| 0 <= k < i ==> describes(#[trigger] r@[k], raw@, sorted@[k]),
        decreases sorted.len() - i,
    {
        let q = &raw[sorted[i]];
        let desc = match &q.desc {
            Some(d) => d.clone(),
            None => String::new(),
        };
        let p = PkgInfo {
            name: q.name.clone(),
            version: q.version.clone(),
            desc,
            size: q.size,
            reason: q.reason,
            depends: clone_strings(&q.depends),
            optdeps: clone_strings(&q.optdeps),
            required_by: required.get(q.name.as_str()),
        };
        assert(required.listed(q.name@) == requirers(raw@, q.name@));
        r.push(p);
        i += 1;
    }
    r
}

proof fn lemma_mentions(deps: Seq<Seq<char>>, name: Seq<char>)
    ensures
        mentions(deps, name) > 0 <==> deps.contains(name),
    decreases deps.len(),
{
    if deps.len() > 0 {
        let rest = deps.drop_last();
        lemma_mentions(rest, name);
        if rest.contains(name) {
            let k = choose|k: int| 0 <= k < rest.len() && rest[k] == name;
            assert(deps[k] == name);
        }
        if deps.contains(name) && deps.last() != name {
            let k = choose|k: int| 0 <= k < deps.len() && deps[k] == name;
            assert(rest[k] == name);
        }
    }
}

/// Whether the package at place `i` of the database depends on `name`.
pub open spec fn depends_on(raw: Seq<RawPkg>, i: int, name: Seq<char>) -> bool {
    text::views(raw[i].depends@).contains(name)
}

/// A package is listed as one that requires another exactly where it depends on it.
pub proof fn requirers_are_exact(raw: Seq<RawPkg>, name: Seq<char>, by: Seq<char>)
    ensures
        requirers(raw, name).contains(by) <==> exists|i: int|
            0 <= i < raw.len() && #[trigger] depends_on(raw, i, name) && raw[i].name@ == by,
    decreases raw.len(),
{
    if raw.len() > 0 {
        let n = raw.len() - 1;
        let rest = raw.drop_last();
        let p = raw.last();
        let times = mentions(text::views(p.depends@), name);
        let a = requirers(rest, name);
        let b = copies(p.name@, times);
        requirers_are_exact(rest, name, by);
        lemma_mentions(text::views(p.depends@), name);
        if requirers(raw, name).contains(by) {
            let k = choose|k: int| 0 <= k < (a + b).len() && (a + b)[k] == by;
            if k < a.len() {
                assert(a[k] == by);
                assert(a.contains(by));
                let i = choose|i: int|
                    0 <= i < rest.len() && #[trigger] depends_on(rest, i, name) && rest[i].name@
                        == by;
                assert(depends_on(raw, i, name) && raw[i].name@ == by);
            } else {
                assert(b[k - a.len()] == by);
                assert(depends_on(raw, n, name) && raw[n].name@ == by);
            }
        }
        if exists|i: int|
            0 <= i < raw.len() && #[trigger] depends_on(raw, i, name) && raw[i].name@ == by {
            let i = choose|i: int|
                0 <= i < raw.len() && #[trigger] depends_on(raw, i, name) && raw[i].name@ == by;
            if i < n {
                assert(depends_on(rest, i, name) && rest[i].name@ == by);
                let k = choose|k: int| 0 <= k < a.len() && a[k] == by;
                assert((a + b)[k] == by);
            } else {
                assert((a + b)[a.len() as int] == by);
            }
        }
    }
}

/// An orphan is a package that was installed as a dependency and that no package
/// depends on.
pub proof fn orphans_are_what_nothing_needs(p: PkgInfo, raw: Seq<RawPkg>, k: usize)
    requires
        k < raw.len(),
        describes(p, raw, k),
    ensures
        p.orphan() <==> raw[k as int].reason == Reason::Depend && (forall|i: int|
            0 <= i < raw.len() ==> !#[trigger] depends_on(raw, i, raw[k as int].name@)),
{
    let name = raw[k as int].name@;
    let by = requirers(raw, name);
    assert(text::views(p.required_by@).len() == p.required_by@.len());
    if by.len() > 0 {
        assert(by.contains(by[0]));
        requirers_are_exact(raw, name, by[0]);
    } else {
        assert forall|i: int| 0 <= i < raw.len() implies !#[trigger] depends_on(raw, i, name) by {
            requirers_are_exact(raw, name, raw[i].name@);
        }
    }
}

/// Every package of the database is loaded once, and the packages stand in the
/// order of their names.
pub proof fn packages_are_loaded_in_order(raw: Seq<RawPkg>)
    requires
        raw.len() <= usize::MAX,
    ensures
        sorted_places(raw).len() == raw.len(),
        sorted_places(raw).no_duplicates(),
        forall|i: usize| #[trigger] sorted_places(raw).contains(i) <==> i < raw.len(),
        forall|k: int, l: int|
            0 <= k < l < raw.len() ==> order::lex_le(
                raw[#[trigger] sorted_places(raw)[k] as int].name@,
                raw[#[trigger] sorted_places(raw)[l] as int].name@,
            ),
{
    let all = indices(raw.len());
    let leq = by_name(raw_names(raw));
    let sorted = sorted_places(raw);
    by_name_is_total(raw_names(raw));
    all.lemma_sort_by_ensures(leq);
    all.to_multiset_ensures();
    sorted.to_multiset_ensures();
    assert(all.no_duplicates());
    all.lemma_multiset_has_no_duplicates();
    sorted.lemma_multiset_has_no_duplicates_conv();
    assert forall|i: usize| #[trigger] sorted.contains(i) <==> i < raw.len() by {
        assert(sorted.to_multiset().count(i) == all.to_multiset().count(i));
        if i < raw.len() {
            assert(all[i as int] == i);
        }
    }
    assert forall|k: int, l: int| 0 <= k < l < raw.len() implies order::lex_le(
        raw[#[trigger] sorted[k] as int].name@,
        raw[#[trigger] sorted[l] as int].name@,
    ) by {
        assert(sorted.contains(sorted[k]) && sorted.contains(sorted[l]));
        assert(leq(sorted[k], sorted[l]));
        assert(raw_names(raw)[sorted[k] as int] == raw[sorted[k] as int].name@);
        assert(raw_names(raw)[sorted[l] as int] == raw[sorted[l] as int].name@);
    }
}

/// A package is loaded as the database describes it: nothing of it is left out or
/// changed. A description that is missing is empty.
pub proof fn packages_are_loaded_unchanged(p: PkgInfo, raw: Seq<RawPkg>, k: usize)
    requires
        describes(p, raw, k),
    ensures
        ({
            let q = raw[k as int];
            &&& p.name@ == q.name@
            &&& p.version@ == q.version@
            &&& q.desc matches Some(d) ==> p.desc@ == d@
            &&& q.desc is None ==> p.desc@.len() == 0
            &&& p.size == q.size
            &&& p.reason == q.reason
            &&& p.depends@.len() == q.depends@.len()
            &&& forall|i: int|
                0 <= i < p.depends@.len() ==> (#[trigger] p.depends@[i])@ == q.depends@[i]@
            &&& p.optdeps@.len() == q.optdeps@.len()
            &&& forall|i: int|
                0 <= i < p.optdeps@.len() ==> (#[trigger] p.optdeps@[i])@ == q.optdeps@[i]@
            &&& p.required_by@.len() == requirers(raw, q.name@).len()
            &&& forall|i: int|
                0 <= i < p.required_by@.len() ==> (#[trigger] p.required_by@[i])@ == requirers(
                    raw,
                    q.name@,
                )[i]
        }),
{
    let q = raw[k as int];
    assert(text::views(p.depends@).len() == p.depends@.len());
    assert(text::views(q.depends@).len() == q.depends@.len());
    assert(text::views(p.optdeps@).len() == p.optdeps@.len());
    assert(text::views(q.optdeps@).len() == q.optdeps@.len());
    assert(text::views(p.required_by@).len() == p.required_by@.len());
    assert forall|i: int| 0 <= i < p.depends@.len() implies (#[trigger] p.depends@[i])@
        == q.depends@[i]@ by {
        assert(text::views(p.depends@)[i] == p.depends@[i]@);
        assert(text::views(q.depends@)[i] == q.depends@[i]@);
    }
    assert forall|i: int| 0 <= i < p.optdeps@.len() implies (#[trigger] p.optdeps@[i])@
        == q.optdeps@[i]@ by {
        assert(text::views(p.optdeps@)[i] == p.optdeps@[i]@);
        assert(text::views(q.optdeps@)[i] == q.optdeps@[i]@);
    }
    assert forall|i: int| 0 <= i < p.required_by@.len() implies (#[trigger] p.required_by@[i])@
        == requirers(raw, q.name@)[i] by {
        assert(text::views(p.required_by@)[i] == p.required_by@[i]@);
    }
}

/// One package more in the database: behind the packages that require `name` it comes
/// as often as its dependencies hold `name`.
pub proof fn requirers_grow_with_each_dependency(
    raw: Seq<RawPkg>,
    p: RawPkg,
    name: Seq<char>,
    k: int,
)
    ensures
        requirers(Seq::empty(), name).len() == 0,
        ({
            let before = requirers(raw, name);
            let after = requirers(raw.push(p), name);
            &&& after.len() == before.len() + text::views(p.depends@).to_multiset().count(name)
            &&& 0 <= k < after.len() ==> after[k] == if k < before.len() {
                before[k]
            } else {
                p.name@
            }
        }),
{
    assert(raw.push(p).drop_last() =~= raw);
    lemma_mentions_count(text::views(p.depends@), name);
}

proof fn lemma_mentions_count(deps: Seq<Seq<char>>, name: Seq<char>)
    ensures
        mentions(deps, name) == deps.to_multiset().count(name),
    decreases deps.len(),
{
    deps.to_multiset_ensures();
    if deps.len() > 0 {
        let rest = deps.drop_last();
        lemma_mentions_count(rest, name);
        rest.to_multiset_ensures();
        assert(rest.push(deps.last()) =~= deps);
        assert(deps.to_multiset() =~= rest.to_multiset().insert(deps.last()));
    } else {
        assert(!deps.contains(name));
    }
}

} // verus!
