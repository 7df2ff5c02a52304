//! Which packages are listed, and in which order.

use crate::mode::SortMode;
use crate::order::{sort, str_le, Ranking};
use crate::package;
use crate::package::{all_indices, PkgInfo};
use crate::text;
use crate::text::{push_view, str_contains};
use std::collections::HashSet;
use vstd::prelude::*;
use vstd::relations::total_ordering;

verus! {

/// The names of `pkgs`.
pub open spec fn names(pkgs: Seq<PkgInfo>) -> Seq<Seq<char>> {
    pkgs.map_values(|p: PkgInfo| p.name@)
}

/// Whether a search for `query` finds `p`: its name, description or version
/// holds it, upper and lower case being the same.
pub open spec fn found(p: PkgInfo, query: Seq<char>) -> bool {
    let q = text::lowered(query);
    ||| q.len() == 0
    ||| text::occurs(q, text::lowered(p.name@))
    ||| text::occurs(q, text::lowered(p.desc@))
    ||| text::occurs(q, text::lowered(p.version@))
}

/// Whether `p` is listed.
pub open spec fn shown(p: PkgInfo, query: Seq<char>, only_orphans: bool) -> bool {
    (only_orphans ==> p.orphan()) && found(p, query)
}

/// Whether the package at place `a` is listed before the one at `b`; of two
/// that are equal in this order, the one at the earlier place.
pub open spec fn precedes(pkgs: Seq<PkgInfo>, mode: SortMode, a: usize, b: usize) -> bool {
    let p = pkgs[a as int];
    let q = pkgs[b as int];
    match mode {
        SortMode::Name => package::name_before(names(pkgs), a, b),
        SortMode::Size => p.size > q.size || (p.size == q.size && a <= b),
        SortMode::OrphansFirst => if p.orphan() == q.orphan() {
            package::name_before(names(pkgs), a, b)
        } else {
            p.orphan()
        },
    }
}

/// The order in which packages are listed.
pub open spec fn ordering(pkgs: Seq<PkgInfo>, mode: SortMode) -> spec_fn(usize, usize) -> bool {
    |a: usize, b: usize| precedes(pkgs, mode, a, b)
}

/// The places of the packages that are listed, in the order in which they are.
pub open spec fn listing(
    pkgs: Seq<PkgInfo>,
    query: Seq<char>,
    only_orphans: bool,
    mode: SortMode,
) -> Seq<usize> {
    package::indices(pkgs.len()).filter(
        |i: usize| shown(pkgs[i as int], query, only_orphans),
    ).sort_by(ordering(pkgs, mode))
}

/// Each sort mode puts any two places into a sequence.
pub proof fn ordering_is_total(pkgs: Seq<PkgInfo>, mode: SortMode)
    ensures
        total_ordering(ordering(pkgs, mode)),
{
    let leq = ordering(pkgs, mode);
    let by_name = package::by_name(names(pkgs));
    package::by_name_is_total(names(pkgs));
    assert forall|a: usize| #[trigger] leq(a, a) by {
        assert(by_name(a, a));
    }
    assert forall|a: usize, b: usize| #[trigger] leq(a, b) && #[trigger] leq(b, a) implies a
        == b by {
        assert(by_name(a, b) && by_name(b, a) ==> a == b);
    }
    assert forall|a: usize, b: usize| #[trigger] leq(a, b) || #[trigger] leq(b, a) by {
        assert(by_name(a, b) || by_name(b, a));
    }
    assert forall|a: usize, b: usize, c: usize| #[trigger]
        leq(a, b) && #[trigger] leq(b, c) implies leq(a, c) by {
        assert(by_name(a, b) && by_name(b, c) ==> by_name(a, c));
    }
}

struct ByMode<'a> {
    pkgs: &'a Vec<PkgInfo>,
    mode: SortMode,
}

impl<'a> ByMode<'a> {
    fn name_before(&self, a: usize, b: usize) -> (r: bool)
        requires
            a < self.pkgs@.len(),
            b < self.pkgs@.len(),
        ensures
            r == package::name_before(names(self.pkgs@), a, b),
    {
        let x = &self.pkgs[a].name;
        let y = &self.pkgs[b].name;
        str_le(x.as_str(), y.as_str()) && (a <= b || *x != *y)
    }
}

impl<'a> Ranking for ByMode<'a> {
    closed spec fn covers(&self, a: usize) -> bool {
        a < self.pkgs@.len()
    }

    closed spec fn order(&self) -> spec_fn(usize, usize) -> bool {
        ordering(self.pkgs@, self.mode)
    }

    proof fn order_is_total(&self) {
        ordering_is_total(self.pkgs@, self.mode);
    }

    fn before(&self, a: usize, b: usize) -> (r: bool) {
        match self.mode {
            SortMode::Name => self.name_before(a, b),
            SortMode::Size => {
                let x: i64 = self.pkgs[a].size;
                let y: i64 = self.pkgs[b].size;
                x > y || (x == y && a <= b)
            },
            SortMode::OrphansFirst => {
                let x = self.pkgs[a].is_orphan();
                let y = self.pkgs[b].is_orphan();
                if x == y {
                    self.name_before(a, b)
                } else {
                    x
                }
            },
        }
    }
}

/// Filtering a sequence with one element more.
pub proof fn lemma_filter_push<A>(s: Seq<A>, e: A, f: spec_fn(A) -> bool)
    ensures
        s.push(e).filter(f) == if f(e) {
            s.filter(f).push(e)
        } else {
            s.filter(f)
        },
{
    reveal(Seq::filter);
    assert(s.push(e).drop_last() =~= s);
}

fn is_shown(p: &PkgInfo, query: &str, lower: &str, only_orphans: bool) -> (r: bool)
    requires
        lower@ == text::lowered(query@),
    ensures
        r == shown(*p, query@, only_orphans),
{
    if only_orphans && !p.is_orphan() {
        return false;
    }
    if lower.is_empty() {
        return true;
    }
    str_contains(p.name.as_str().to_lowercase().as_str(), lower) || str_contains(
        p.desc.as_str().to_lowercase().as_str(),
        lower,
    ) || str_contains(p.version.as_str().to_lowercase().as_str(), lower)
}

/// The places of the packages that are listed, in the order in which they are.
pub fn list_packages(
    pkgs: &Vec<PkgInfo>,
    query: &str,
    only_orphans: bool,
    mode: SortMode,
) -> (r: Vec<usize>)
    ensures
        r@ == listing(pkgs@, query@, only_orphans, mode),
{
    let lower = query.to_lowercase();
    let ghost pick = |i: usize| shown(pkgs@[i as int], query@, only_orphans);
    let mut v: Vec<usize> = Vec::new();
    let mut i: usize = 0;
    proof {
        reveal(Seq::filter);
        assert(package::indices(0) =~= Seq::empty());
    }
    while i < pkgs.len()
        invariant
            i <= pkgs@.len(),
            lower@ == text::lowered(query@),
            pick == |i: usize| shown(pkgs@[i as int], query@, only_orphans),
            v@ == package::indices(i as nat).filter(pick),
            forall|k: int| 0 <= k < v@.len() ==> #[trigger] v@[k] < pkgs@.len(),
        decreases pkgs@.len() - i,
    {
        proof {
            lemma_filter_push(package::indices(i as nat), i, pick);
            assert(package::indices(i as nat).push(i) =~= package::indices(i as nat + 1));
        }
        if is_shown(&pkgs[i], query, lower.as_str(), only_orphans) {
            v.push(i);
        }
        i += 1;
    }
    sort(&ByMode { pkgs, mode }, v)
}

/// The names of the packages at the places `marked`, in order.
pub open spec fn names_of(pkgs: Seq<PkgInfo>, marked: Set<usize>) -> Seq<Seq<char>> {
    package::indices(pkgs.len()).filter(|i: usize| marked.contains(i)).sort_by(
        package::by_name(names(pkgs)),
    ).map_values(|i: usize| pkgs[i as int].name@)
}

/// The names of the packages at the places `marked`, in order.
pub fn marked_names(pkgs: &Vec<PkgInfo>, marked: &HashSet<usize>) -> (r: Vec<String>)
    ensures
        text::views(r@) == names_of(pkgs@, marked@),
{
    let ghost pick = |i: usize| marked@.contains(i);
    let mut v: Vec<usize> = Vec::new();
    let mut i: usize = 0;
    proof {
        reveal(Seq::filter);
        assert(package::indices(0) =~= Seq::empty());
    }
    while i < pkgs.len()
        invariant
            i <= pkgs@.len(),
            pick == |i: usize| marked@.contains(i),
            v@ == package::indices(i as nat).filter(pick),
            forall|k: int| 0 <= k < v@.len() ==> #[trigger] v@[k] < pkgs@.len(),
        decreases pkgs@.len() - i,
    {
        proof {
            lemma_filter_push(package::indices(i as nat), i, pick);
            assert(package::indices(i as nat).push(i) =~= package::indices(i as nat + 1));
        }
        if marked.contains(&i) {
            v.push(i);
        }
        i += 1;
    }
    let ghost places = v@;
    let ranking = ByMode { pkgs, mode: SortMode::Name };
    let sorted = sort(&ranking, v);
    proof {
        assert(ordering(pkgs@, SortMode::Name) =~= package::by_name(names(pkgs@)));
        places.to_multiset_ensures();
        sorted@.to_multiset_ensures();
        assert forall|k: int| 0 <= k < sorted@.len() implies #[trigger] sorted@[k] < pkgs@.len() by {
            assert(sorted@.to_multiset().count(sorted@[k]) > 0);
            assert(places.contains(sorted@[k]));
        }
    }
    let ghost all = sorted@.map_values(|i: usize| pkgs@[i as int].name@);
    let mut r: Vec<String> = Vec::new();
    let mut k: usize = 0;
    assert(text::views(r@) =~= all.take(0));
    while k < sorted.len()
        invariant
            k <= sorted@.len(),
            forall|k: int| 0 <= k < sorted@.len() ==> #[trigger] sorted@[k] < pkgs@.len(),
            all == sorted@.map_values(|i: usize| pkgs@[i as int].name@),
            text::views(r@) == all.take(k as int),
        decreases sorted@.len() - k,
    {
        push_view(&mut r, pkgs[sorted[k]].name.clone());
        assert(all.take(k as int + 1) =~= all.take(k as int).push(all[k as int]));
        k += 1;
    }
    assert(all.take(all.len() as int) =~= all);
    r
}

/// How many of `pkgs` are orphans.
pub open spec fn orphans(pkgs: Seq<PkgInfo>) -> nat {
    pkgs.filter(|p: PkgInfo| p.orphan()).len()
}

/// How many of `pkgs` are orphans.
pub fn orphan_count(pkgs: &Vec<PkgInfo>) -> (r: usize)
    ensures
        r == orphans(pkgs@),
{
    let ghost pick = |p: PkgInfo| p.orphan();
    let mut count: usize = 0;
    let mut i: usize = 0;
    proof {
        reveal(Seq::filter);
    }
    while i < pkgs.len()
        invariant
            i <= pkgs@.len(),
            pick == |p: PkgInfo| p.orphan(),
            count == pkgs@.take(i as int).filter(pick).len(),
            count <= i,
        decreases pkgs@.len() - i,
    {
        proof {
            lemma_filter_push(pkgs@.take(i as int), pkgs@[i as int], pick);
            assert(pkgs@.take(i as int + 1) =~= pkgs@.take(i as int).push(pkgs@[i as int]));
        }
        if pkgs[i].is_orphan() {
            count += 1;
        }
        i += 1;
    }
    assert(pkgs@.take(pkgs@.len() as int) =~= pkgs@);
    count
}

/// The number of 64 bits, with a sign, that is left of `x` when the bits above
/// are dropped.
pub open spec fn wrapped(x: int) -> int {
    (x + 0x8000_0000_0000_0000) % 0x1_0000_0000_0000_0000 - 0x8000_0000_0000_0000
}

/// The sum of the sizes of the first `n` of `pkgs` as far as their places are
/// in `marked`.
pub open spec fn size_sum(pkgs: Seq<PkgInfo>, marked: Set<usize>, n: nat) -> int
    decreases n,
{
    if n == 0 {
        0
    } else {
        let i = (n - 1) as nat;
        size_sum(pkgs, marked, i) + if marked.contains(i as usize) {
            pkgs[i as int].size as int
        } else {
            0
        }
    }
}

/// Bits that are dropped on the way do not change what is left of a sum.
pub proof fn sums_can_wrap_early(x: int, b: int)
    ensures
        wrapped(wrapped(x) + b) == wrapped(x + b),
{
    let m: int = 0x1_0000_0000_0000_0000;
    let h: int = 0x8000_0000_0000_0000;
    assert((x + h) % m == (x + h) - m * ((x + h) / m));
    vstd::arithmetic::div_mod::lemma_mod_multiples_vanish(-((x + h) / m), x + b + h, m);
    assert(wrapped(x) + b + h == m * (-((x + h) / m)) + (x + b + h)) by (nonlinear_arith)
        requires
            wrapped(x) == (x + h) - m * ((x + h) / m) - h,
    ;
}

/// A sum that fits is not changed.
pub proof fn sums_that_fit_are_exact(x: int)
    requires
        i64::MIN <= x <= i64::MAX,
    ensures
        wrapped(x) == x,
{
}

/// `a + b`, without the bits above the 64th.
pub fn wrapping_sum(a: i64, b: i64) -> (r: i64)
    ensures
        r == wrapped(a + b),
{
    a.wrapping_add(b)
}

/// The sizes of the packages at the places `marked` together, without the bits
/// above the 64th.
pub fn marked_size(pkgs: &Vec<PkgInfo>, marked: &HashSet<usize>) -> (r: i64)
    ensures
        r == wrapped(size_sum(pkgs@, marked@, pkgs@.len())),
{
    let mut sum: i64 = 0;
    let mut i: usize = 0;
    while i < pkgs.len()
        invariant
            i <= pkgs@.len(),
            sum == wrapped(size_sum(pkgs@, marked@, i as nat)),
        decreases pkgs@.len() - i,
    {
        if marked.contains(&i) {
            proof {
                sums_can_wrap_early(
                    size_sum(pkgs@, marked@, i as nat),
                    pkgs@[i as int].size as int,
                );
            }
            sum = wrapping_sum(sum, pkgs[i].size);
        }
        i += 1;
    }
    sum
}

} // verus!
