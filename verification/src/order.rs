//! The order of names, and sorting.

use vstd::prelude::*;
use vstd::relations::*;

verus! {

/// Whether `a` stands before `b`, or equals it, in lexicographic order by code
/// points.
pub open spec fn lex_le(a: Seq<char>, b: Seq<char>) -> bool
    decreases a.len(),
{
    if a.len() == 0 {
        true
    } else if b.len() == 0 {
        false
    } else if a.first() == b.first() {
        lex_le(a.drop_first(), b.drop_first())
    } else {
        a.first() < b.first()
    }
}

/// Every string is in order with itself.
pub proof fn lex_le_is_reflexive(a: Seq<char>)
    ensures
        lex_le(a, a),
    decreases a.len(),
{
    if a.len() > 0 {
        lex_le_is_reflexive(a.drop_first());
    }
}

/// Two strings are in order one way round or the other.
pub proof fn lex_le_is_total(a: Seq<char>, b: Seq<char>)
    ensures
        lex_le(a, b) || lex_le(b, a),
    decreases a.len(),
{
    if a.len() > 0 && b.len() > 0 {
        lex_le_is_total(a.drop_first(), b.drop_first());
    }
}

/// Only equal strings are in order both ways round.
pub proof fn lex_le_is_antisymmetric(a: Seq<char>, b: Seq<char>)
    requires
        lex_le(a, b),
        lex_le(b, a),
    ensures
        a == b,
    decreases a.len(),
{
    if a.len() > 0 && b.len() > 0 {
        lex_le_is_antisymmetric(a.drop_first(), b.drop_first());
        assert(a =~= seq![a.first()] + a.drop_first());
        assert(b =~= seq![b.first()] + b.drop_first());
    }
}

/// The order carries over a string between two others.
pub proof fn lex_le_is_transitive(a: Seq<char>, b: Seq<char>, c: Seq<char>)
    requires
        lex_le(a, b),
        lex_le(b, c),
    ensures
        lex_le(a, c),
    decreases a.len(),
{
    if a.len() > 0 && b.len() > 0 && c.len() > 0 && a.first() == b.first() && b.first()
        == c.first() {
        lex_le_is_transitive(a.drop_first(), b.drop_first(), c.drop_first());
    }
}

/// `<=` on `str` compares byte by byte, which orders strings by the code points
/// of their characters.
#[verifier::external_body]
pub(crate) fn str_le(a: &str, b: &str) -> (r: bool)
    ensures
        r == lex_le(a@, b@),
{
    a <= b
}

/// An order of the places in a list.
pub trait Ranking {
    /// Whether `a` is a place in the list.
    spec fn covers(&self, a: usize) -> bool;

    /// The order.
    spec fn order(&self) -> spec_fn(usize, usize) -> bool;

    /// The order puts any two places into a sequence.
    proof fn order_is_total(&self)
        ensures
            total_ordering(self.order()),
    ;

    /// Whether `a` stands before `b`, or equals it.
    fn before(&self, a: usize, b: usize) -> (r: bool)
        requires
            self.covers(a),
            self.covers(b),
        ensures
            r == self.order()(a, b),
    ;
}

/// Two sorted sequences of the same elements are equal.
pub proof fn sorted_is_unique<A>(x: Seq<A>, y: Seq<A>, leq: spec_fn(A, A) -> bool)
    requires
        total_ordering(leq),
        sorted_by(x, leq),
        sorted_by(y, leq),
        x.to_multiset() == y.to_multiset(),
    ensures
        x == y,
    decreases x.len(),
{
    x.to_multiset_ensures();
    y.to_multiset_ensures();
    assert(x.len() == y.len());
    if x.len() > 0 {
        let n = x.len() - 1;
        assert(x.contains(x[n]));
        assert(y.contains(y[n]));
        assert(y.to_multiset().count(x[n]) > 0);
        assert(x.to_multiset().count(y[n]) > 0);
        let j = choose|j: int| 0 <= j < y.len() && y[j] == x[n];
        let i = choose|i: int| 0 <= i < x.len() && x[i] == y[n];
        assert(leq(x[n], x[n]));
        assert(leq(y[j], y[n]));
        assert(leq(x[i], x[n]));
        assert(x[n] == y[n]);
        assert(x.remove(n) =~= x.drop_last());
        assert(y.remove(n) =~= y.drop_last());
        sorted_is_unique(x.drop_last(), y.drop_last(), leq);
        assert(x =~= x.drop_last().push(x[n]));
        assert(y =~= y.drop_last().push(y[n]));
    }
}

fn merge<R: Ranking>(ranking: &R, a: Vec<usize>, b: Vec<usize>) -> (r: Vec<usize>)
    requires
        sorted_by(a@, ranking.order()),
        sorted_by(b@, ranking.order()),
        forall|k: int| 0 <= k < a@.len() ==> ranking.covers(#[trigger] a@[k]),
        forall|k: int| 0 <= k < b@.len() ==> ranking.covers(#[trigger] b@[k]),
    ensures
        sorted_by(r@, ranking.order()),
        r@.to_multiset() == a@.to_multiset().add(b@.to_multiset()),
{
    broadcast use {
        vstd::seq_lib::group_to_multiset_ensures,
        vstd::multiset::group_multiset_axioms,
    };

    let ghost leq = ranking.order();
    proof {
        ranking.order_is_total();
    }
    let mut r: Vec<usize> = Vec::new();
    let mut i: usize = 0;
    let mut j: usize = 0;
    assert(a@.take(0) =~= Seq::<usize>::empty());
    assert(b@.take(0) =~= Seq::<usize>::empty());
    assert(r@.to_multiset() =~= a@.take(0).to_multiset().add(b@.take(0).to_multiset()));
    while i < a.len() || j < b.len()
        invariant
            i <= a@.len(),
            j <= b@.len(),
            leq == ranking.order(),
            total_ordering(leq),
            sorted_by(a@, leq),
            sorted_by(b@, leq),
            forall|k: int| 0 <= k < a@.len() ==> ranking.covers(#[trigger] a@[k]),
            forall|k: int| 0 <= k < b@.len() ==> ranking.covers(#[trigger] b@[k]),
            sorted_by(r@, leq),
            forall|k: int, l: int|
                0 <= k < r@.len() && i <= l < a@.len() ==> #[trigger] leq(r@[k], a@[l]),
            forall|k: int, l: int|
                0 <= k < r@.len() && j <= l < b@.len() ==> #[trigger] leq(r@[k], b@[l]),
            r@.to_multiset() == a@.take(i as int).to_multiset().add(
                b@.take(j as int).to_multiset(),
            ),
        decreases a@.len() - i + (b@.len() - j),
    {
        if j == b.len() || (i < a.len() && ranking.before(a[i], b[j])) {
            proof {
                let x = a@[i as int];
                assert(a@.take(i as int + 1) =~= a@.take(i as int).push(x));
                a@.take(i as int).to_multiset_ensures();
                r@.to_multiset_ensures();
                assert(r@.push(x).to_multiset() =~= a@.take(i as int + 1).to_multiset().add(
                    b@.take(j as int).to_multiset(),
                ));
                assert forall|l: int| j <= l < b@.len() implies #[trigger] leq(x, b@[l]) by {
                    assert(leq(x, b@[j as int]));
                    assert(l > j ==> leq(b@[j as int], b@[l]));
                }
            }
            r.push(a[i]);
            i += 1;
        } else {
            proof {
                let x = b@[j as int];
                assert(b@.take(j as int + 1) =~= b@.take(j as int).push(x));
                b@.take(j as int).to_multiset_ensures();
                r@.to_multiset_ensures();
                assert(r@.push(x).to_multiset() =~= a@.take(i as int).to_multiset().add(
                    b@.take(j as int + 1).to_multiset(),
                ));
                assert forall|l: int| i <= l < a@.len() implies #[trigger] leq(x, a@[l]) by {
                    assert(leq(x, a@[i as int]));
                    assert(l > i ==> leq(a@[i as int], a@[l]));
                }
            }
            r.push(b[j]);
            j += 1;
        }
    }
    assert(a@.take(a@.len() as int) =~= a@);
    assert(b@.take(b@.len() as int) =~= b@);
    r
}

/// Sorts places of a list.
pub fn sort<R: Ranking>(ranking: &R, v: Vec<usize>) -> (r: Vec<usize>)
    requires
        forall|k: int| 0 <= k < v@.len() ==> ranking.covers(#[trigger] v@[k]),
    ensures
        r@ == v@.sort_by(ranking.order()),
        r@.to_multiset() == v@.to_multiset(),
        sorted_by(r@, ranking.order()),
    decreases v@.len(),
{
    broadcast use {
        vstd::seq_lib::group_to_multiset_ensures,
        vstd::multiset::group_multiset_axioms,
    };

    proof {
        ranking.order_is_total();
        v@.lemma_sort_by_ensures(ranking.order());
    }
    let n: usize = v.len();
    if n < 2 {
        proof {
            sorted_is_unique(v@, v@.sort_by(ranking.order()), ranking.order());
        }
        return v;
    }
    let mut left = v;
    let right = left.split_off(n / 2);
    let ghost parts = (left@, right@);
    proof {
        assert(v@ =~= left@ + right@);
        vstd::seq_lib::lemma_multiset_commutative(left@, right@);
    }
    let left = sort(ranking, left);
    let right = sort(ranking, right);
    proof {
        assert forall|k: int| 0 <= k < left@.len() implies ranking.covers(#[trigger] left@[k]) by {
            assert(left@.to_multiset().count(left@[k]) > 0);
            assert(parts.0.contains(left@[k]));
            let m = choose|m: int| 0 <= m < parts.0.len() && parts.0[m] == left@[k];
            assert(v@[m] == left@[k]);
        }
        assert forall|k: int| 0 <= k < right@.len() implies ranking.covers(
            #[trigger] right@[k],
        ) by {
            assert(right@.to_multiset().count(right@[k]) > 0);
            assert(parts.1.contains(right@[k]));
            let m = choose|m: int| 0 <= m < parts.1.len() && parts.1[m] == right@[k];
            assert(v@[parts.0.len() + m] == right@[k]);
        }
    }
    let r = merge(ranking, left, right);
    proof {
        sorted_is_unique(r@, v@.sort_by(ranking.order()), ranking.order());
    }
    r
}

} // verus!
