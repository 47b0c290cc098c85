//! Axes: lists of names in strictly increasing lexicographic order.

use crate::table::names;
use crate::text::{
    compare_names, lemma_lex_lt_irreflexive, lemma_lex_lt_transitive, lex_lt, NameOrder,
};
use vstd::prelude::*;

verus! {

/// Strictly increasing in lexicographic order.
pub open spec fn sorted(ns: Seq<Seq<char>>) -> bool {
    forall|i: int, j: int| 0 <= i < j < ns.len() ==> lex_lt(#[trigger] ns[i], #[trigger] ns[j])
}

/// `axis` with `name` added in its place, unless it is there already.
pub(crate) fn axis_with(given: Vec<String>, name: &String) -> (r: Vec<String>)
    requires
        sorted(names(given@)),
    ensures
        sorted(names(r@)),
        forall|x: Seq<char>| #[trigger]
            names(r@).contains(x) <==> (names(given@).contains(x) || x == name@),
{
    let ghost before = names(given@);
    let mut axis = given;
    let mut p: usize = 0;
    let mut stop = false;
    while p < axis.len() && !stop
        invariant
            p <= axis.len(),
            names(axis@) == before,
            before == names(given@),
            sorted(before),
            forall|i: int| 0 <= i < p ==> lex_lt(#[trigger] before[i], name@),
            stop ==> p < axis.len() && lex_lt(name@, before[p as int]),
        decreases axis.len() - p + (if stop { 0int } else { 1int }),
    {
        match compare_names(axis[p].as_str(), name.as_str()) {
            NameOrder::Before => {
                p += 1;
            },
            NameOrder::Same => {
                proof {
                    assert(before[p as int] == name@);
                    assert(before.contains(name@));
                }
                return axis;
            },
            NameOrder::After => {
                stop = true;
            },
        }
    }
    axis.insert(p, name.clone());
    proof {
        let after = names(axis@);
        assert(after =~= before.insert(p as int, name@));
        assert forall|i: int, j: int| 0 <= i < j < after.len() implies lex_lt(
            #[trigger] after[i],
            #[trigger] after[j],
        ) by {
            if j < p {
                assert(lex_lt(before[i], before[j]));
            } else if i < p && j == p {
                assert(lex_lt(before[i], name@));
            } else if i < p {
                assert(lex_lt(before[i], before[j - 1]));
            } else if i == p {
                if j - 1 > p {
                    assert(lex_lt(before[p as int], before[j - 1]));
                    lemma_lex_lt_transitive(name@, before[p as int], before[j - 1]);
                }
            } else {
                assert(lex_lt(before[i - 1], before[j - 1]));
            }
        }
        assert forall|x: Seq<char>| #[trigger]
            after.contains(x) <==> (before.contains(x) || x == name@) by {
            if after.contains(x) {
                let i = choose|i: int| 0 <= i < after.len() && after[i] == x;
                if i < p {
                    assert(before[i] == x);
                } else if i > p {
                    assert(before[i - 1] == x);
                }
            }
            if before.contains(x) {
                let i = choose|i: int| 0 <= i < before.len() && before[i] == x;
                if i < p {
                    assert(after[i] == x);
                } else {
                    assert(after[i + 1] == x);
                }
            }
            if x == name@ {
                assert(after[p as int] == x);
            }
        }
    }
    axis
}

/// A sorted list holds no name twice.
pub proof fn lemma_sorted_distinct(ns: Seq<Seq<char>>, i: int, j: int)
    requires
        sorted(ns),
        0 <= i < ns.len(),
        0 <= j < ns.len(),
        ns[i] == ns[j],
    ensures
        i == j,
{
    lemma_lex_lt_irreflexive(ns[i]);
    if i < j {
        assert(lex_lt(ns[i], ns[j]));
    } else if j < i {
        assert(lex_lt(ns[j], ns[i]));
    }
}

/// Two sorted lists that hold the same names are the same list.
pub proof fn lemma_sorted_unique(a: Seq<Seq<char>>, b: Seq<Seq<char>>)
    requires
        sorted(a),
        sorted(b),
        forall|x: Seq<char>| #[trigger] a.contains(x) <==> b.contains(x),
    ensures
        a == b,
    decreases a.len(),
{
    if a.len() == 0 {
        if b.len() > 0 {
            assert(b.contains(b[0]));
            assert(a.contains(b[0]));
        }
        assert(a =~= b);
    } else if b.len() == 0 {
        assert(a.contains(a[0]));
    } else {
        let x = a.last();
        let y = b.last();
        assert(a.contains(x));
        assert(b.contains(x));
        let j = choose|j: int| 0 <= j < b.len() && b[j] == x;
        assert(b.contains(y));
        assert(a.contains(y));
        let i = choose|i: int| 0 <= i < a.len() && a[i] == y;
        if x != y {
            assert(lex_lt(b[j], b[b.len() - 1]));
            assert(lex_lt(a[i], a[a.len() - 1]));
            lemma_lex_lt_transitive(x, y, x);
            lemma_lex_lt_irreflexive(x);
        }
        let a1 = a.drop_last();
        let b1 = b.drop_last();
        assert forall|p: int, q: int| 0 <= p < q < a1.len() implies lex_lt(
            #[trigger] a1[p],
            #[trigger] a1[q],
        ) by {
            assert(lex_lt(a[p], a[q]));
        }
        assert forall|p: int, q: int| 0 <= p < q < b1.len() implies lex_lt(
            #[trigger] b1[p],
            #[trigger] b1[q],
        ) by {
            assert(lex_lt(b[p], b[q]));
        }
        assert forall|z: Seq<char>| #[trigger] a1.contains(z) <==> b1.contains(z) by {
            if a1.contains(z) {
                let k = choose|k: int| 0 <= k < a1.len() && a1[k] == z;
                assert(a[k] == z);
                assert(a.contains(z));
                let m = choose|m: int| 0 <= m < b.len() && b[m] == z;
                if m == b.len() - 1 {
                    lemma_sorted_distinct(a, k, a.len() - 1);
                }
                assert(b1[m] == z);
            }
            if b1.contains(z) {
                let k = choose|k: int| 0 <= k < b1.len() && b1[k] == z;
                assert(b[k] == z);
                assert(b.contains(z));
                assert(a.contains(z));
                let m = choose|m: int| 0 <= m < a.len() && a[m] == z;
                if m == a.len() - 1 {
                    lemma_sorted_distinct(b, k, b.len() - 1);
                }
                assert(a1[m] == z);
            }
        }
        lemma_sorted_unique(a1, b1);
        assert(a =~= a1.push(x));
        assert(b =~= b1.push(y));
    }
}

} // verus!
