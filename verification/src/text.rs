//! Character-level helpers: the characters of a string, the lexicographic
//! order of names, and substring search.

use vstd::prelude::*;
use vstd::std_specs::iter::IteratorSpec;

verus! {

/// The characters of `s`, in order.
pub fn chars_of(s: &str) -> (v: Vec<char>)
    ensures
        v@ == s@,
{
    let mut v: Vec<char> = Vec::new();
    for c in it: s.chars()
        invariant
            v@ == it.seq().take(it.index@),
    {
        v.push(c);
    }
    v
}

/// Strict lexicographic order by code point: a proper prefix comes first,
/// otherwise the first differing character decides.
pub open spec fn lex_lt(a: Seq<char>, b: Seq<char>) -> bool
    decreases a.len(),
{
    if b.len() == 0 {
        false
    } else if a.len() == 0 {
        true
    } else if a[0] == b[0] {
        lex_lt(a.drop_first(), b.drop_first())
    } else {
        a[0] < b[0]
    }
}

/// How one name stands to another in lexicographic order.
#[derive(Clone, Copy, Debug, PartialEq, Eq, Structural)]
pub enum NameOrder {
    Before,
    Same,
    After,
}

/// The order of `a` relative to `b`.
pub open spec fn name_order(a: Seq<char>, b: Seq<char>) -> NameOrder {
    if a == b {
        NameOrder::Same
    } else if lex_lt(a, b) {
        NameOrder::Before
    } else {
        NameOrder::After
    }
}

/// No name comes before itself.
pub proof fn lemma_lex_lt_irreflexive(a: Seq<char>)
    ensures
        !lex_lt(a, a),
    decreases a.len(),
{
    if a.len() > 0 {
        lemma_lex_lt_irreflexive(a.drop_first());
    }
}

/// The order is transitive.
pub proof fn lemma_lex_lt_transitive(a: Seq<char>, b: Seq<char>, c: Seq<char>)
    requires
        lex_lt(a, b),
        lex_lt(b, c),
    ensures
        lex_lt(a, c),
    decreases a.len(),
{
    if a.len() > 0 && a[0] == b[0] && b[0] == c[0] {
        lemma_lex_lt_transitive(a.drop_first(), b.drop_first(), c.drop_first());
    }
}

/// Compares two names character by character.
pub fn compare_names(a: &str, b: &str) -> (r: NameOrder)
    ensures
        r == name_order(a@, b@),
        r == NameOrder::After ==> lex_lt(b@, a@),
{
    let mut y = b.chars();
    assert(a@.skip(0) =~= a@);
    for c in it: a.chars()
        invariant
            it.seq() == a@,
            (a@ == b@) == (a@.skip(it.index@) == y.remaining()),
            lex_lt(a@, b@) == lex_lt(a@.skip(it.index@), y.remaining()),
            lex_lt(b@, a@) == lex_lt(y.remaining(), a@.skip(it.index@)),
    {
        let ghost p = a@.skip(it.index@);
        let ghost q = y.remaining();
        assert(p.drop_first() =~= a@.skip(it.index@ + 1));
        assert(p[0] == c);
        assert(p =~= seq![p[0]] + p.drop_first());
        assert(q.len() > 0 ==> q =~= seq![q[0]] + q.drop_first());
        match y.next() {
            None => {
                return NameOrder::After;
            },
            Some(d) => {
                if c != d {
                    if c < d {
                        return NameOrder::Before;
                    } else {
                        return NameOrder::After;
                    }
                }
            },
        }
    }
    let ghost q = y.remaining();
    assert(a@.skip(a@.len() as int) =~= Seq::<char>::empty());
    assert(q.len() == 0 ==> q =~= Seq::<char>::empty());
    match y.next() {
        None => NameOrder::Same,
        Some(_) => NameOrder::Before,
    }
}

/// Whether `pat` stands in `s` at index `i`.
pub open spec fn occurs_at(s: Seq<char>, pat: Seq<char>, i: int) -> bool {
    0 <= i && i + pat.len() <= s.len() && s.subrange(i, i + pat.len()) == pat
}

/// The index of the first occurrence of `pat` in `s` at or after `from`.
pub open spec fn find(s: Seq<char>, pat: Seq<char>, from: int) -> Option<int>
    decreases s.len() - from,
{
    if from < 0 || from + pat.len() > s.len() {
        None
    } else if occurs_at(s, pat, from) {
        Some(from)
    } else if from < s.len() {
        find(s, pat, from + 1)
    } else {
        None
    }
}

/// `find` returns an occurrence, and no occurrence lies between `from` and it.
pub proof fn lemma_find_first(s: Seq<char>, pat: Seq<char>, from: int)
    requires
        0 <= from,
    ensures
        match find(s, pat, from) {
            Some(i) => from <= i && occurs_at(s, pat, i) && forall|j: int|
                from <= j < i ==> !occurs_at(s, pat, j),
            None => forall|j: int| from <= j ==> !occurs_at(s, pat, j),
        },
    decreases s.len() - from,
{
    if from + pat.len() <= s.len() {
        if !occurs_at(s, pat, from) {
            if from < s.len() {
                lemma_find_first(s, pat, from + 1);
            } else {
                assert(s.subrange(from, from + pat.len()) =~= pat);
            }
        }
    }
}

/// Tests whether `pat` stands in `s` at index `i`.
pub fn matches_at(s: &Vec<char>, pat: &Vec<char>, i: usize) -> (r: bool)
    ensures
        r == occurs_at(s@, pat@, i as int),
{
    if pat.len() > s.len() || i > s.len() - pat.len() {
        return false;
    }
    let mut k: usize = 0;
    while k < pat.len()
        invariant
            k <= pat.len(),
            i + pat.len() <= s.len(),
            s@.subrange(i as int, i + k) == pat@.take(k as int),
        decreases pat.len() - k,
    {
        if s[i + k] != pat[k] {
            proof {
                let w = s@.subrange(i as int, i + pat.len());
                assert(w[k as int] == s@[i + k]);
            }
            return false;
        }
        proof {
            assert(s@.subrange(i as int, i + k + 1) =~= s@.subrange(i as int, i + k).push(
                s@[i + k],
            ));
            assert(pat@.take(k + 1) =~= pat@.take(k as int).push(pat@[k as int]));
        }
        k += 1;
    }
    proof {
        assert(pat@.take(k as int) =~= pat@);
    }
    true
}

/// Searches `s` for `pat`, starting at index `from`.
pub fn find_in(s: &Vec<char>, pat: &Vec<char>, from: usize) -> (r: Option<usize>)
    ensures
        match r {
            Some(i) => {
                &&& find(s@, pat@, from as int) == Some(i as int)
                &&& from <= i
                &&& i + pat.len() <= s.len()
                &&& occurs_at(s@, pat@, i as int)
                &&& forall|j: int| from <= j < i ==> !occurs_at(s@, pat@, j)
            },
            None => {
                &&& find(s@, pat@, from as int) is None
                &&& forall|j: int| from <= j ==> !occurs_at(s@, pat@, j)
            },
        },
{
    proof {
        lemma_find_first(s@, pat@, from as int);
    }
    if pat.len() > s.len() {
        return None;
    }
    let last = s.len() - pat.len();
    let mut i: usize = from;
    while i <= last
        invariant
            from <= i,
            last == s.len() - pat.len(),
            find(s@, pat@, from as int) == find(s@, pat@, i as int),
        decreases last + 1 - i,
    {
        if matches_at(s, pat, i) {
            proof {
                lemma_find_first(s@, pat@, from as int);
            }
            return Some(i);
        }
        if i == last {
            proof {
                assert(find(s@, pat@, i + 1) is None);
                lemma_find_first(s@, pat@, from as int);
            }
            return None;
        }
        i += 1;
    }
    proof {
        lemma_find_first(s@, pat@, from as int);
    }
    None
}

} // verus!
