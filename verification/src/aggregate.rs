//! Grouping of entries into sections and tables.
//!
//! Sections come out ordered by category, the tables of a section by
//! usecase, and both axes of a table in lexicographic order, so the result
//! is a function of the entries alone.

use crate::table::{
    entry_views, names, section_names, section_views, table_names, BenchmarkEntry,
    CategorySection, EntryView, SectionView, TableView, UsecaseTable,
};
use crate::aggregate_laws::lemma_aggregated_unique;
use crate::axis::{axis_with, lemma_sorted_distinct, sorted};
use vstd::prelude::*;

verus! {

/// One of the four names that key an entry.
#[derive(Clone, Copy, Debug, PartialEq, Eq, Structural)]
pub enum Field {
    Category,
    Usecase,
    TestFunction,
    Library,
}

/// The name that `e` has in `which`.
pub open spec fn field(e: EntryView, which: Field) -> Seq<char> {
    match which {
        Field::Category => e.category,
        Field::Usecase => e.usecase,
        Field::TestFunction => e.test_function,
        Field::Library => e.library,
    }
}

/// A restriction of the entries to one category, one usecase, or both.
pub struct Scope {
    pub category: Option<Seq<char>>,
    pub usecase: Option<Seq<char>>,
}

/// Whether `e` falls under `sc`.
pub open spec fn in_scope(e: EntryView, sc: Scope) -> bool {
    &&& sc.category matches Some(c) ==> e.category == c
    &&& sc.usecase matches Some(u) ==> e.usecase == u
}

/// Whether some entry under `sc` has the name `name` in `which`.
pub open spec fn observed(es: Seq<EntryView>, sc: Scope, which: Field, name: Seq<char>) -> bool {
    exists|k: int| 0 <= k < es.len() && in_scope(#[trigger] es[k], sc) && field(es[k], which) == name
}

/// `ns` lists, in order and once each, exactly the names observed in
/// `which` among the entries under `sc`.
pub open spec fn is_axis(ns: Seq<Seq<char>>, es: Seq<EntryView>, sc: Scope, which: Field) -> bool {
    &&& sorted(ns)
    &&& forall|x: Seq<char>| #[trigger] ns.contains(x) <==> observed(es, sc, which, x)
}

/// Whether `e` has the four-part key given.
pub open spec fn has_key(
    e: EntryView,
    cat: Seq<char>,
    uc: Seq<char>,
    tf: Seq<char>,
    lib: Seq<char>,
) -> bool {
    e.category == cat && e.usecase == uc && e.test_function == tf && e.library == lib
}

/// The time recorded under a key: that of the last entry with the key.
pub open spec fn recorded(
    es: Seq<EntryView>,
    cat: Seq<char>,
    uc: Seq<char>,
    tf: Seq<char>,
    lib: Seq<char>,
) -> Option<u64>
    decreases es.len(),
{
    if es.len() == 0 {
        None
    } else if has_key(es.last(), cat, uc, tf, lib) {
        Some(es.last().elapsed_picos)
    } else {
        recorded(es.drop_last(), cat, uc, tf, lib)
    }
}

/// `t` is the table of the usecase it names within category `cat`.
pub open spec fn table_for(t: TableView, es: Seq<EntryView>, cat: Seq<char>) -> bool {
    let sc = Scope { category: Some(cat), usecase: Some(t.usecase) };
    &&& is_axis(t.libraries, es, sc, Field::Library)
    &&& is_axis(t.test_functions, es, sc, Field::TestFunction)
    &&& t.cells.len() == t.test_functions.len()
    &&& forall|r: int|
        0 <= r < t.cells.len() ==> (#[trigger] t.cells[r]).len() == t.libraries.len()
    &&& forall|r: int, c: int|
        0 <= r < t.test_functions.len() && 0 <= c < t.libraries.len() ==> #[trigger] t.cell(r, c)
            == recorded(es, cat, t.usecase, t.test_functions[r], t.libraries[c])
}

/// `s` is the section of the category it names.
pub open spec fn section_for(s: SectionView, es: Seq<EntryView>) -> bool {
    let sc = Scope { category: Some(s.category), usecase: None };
    &&& is_axis(table_names(s.tables), es, sc, Field::Usecase)
    &&& forall|j: int| 0 <= j < s.tables.len() ==> table_for(#[trigger] s.tables[j], es, s.category)
}

/// `ss` is the grouping of `es`.
pub open spec fn aggregated(ss: Seq<SectionView>, es: Seq<EntryView>) -> bool {
    let all = Scope { category: None, usecase: None };
    &&& is_axis(section_names(ss), es, all, Field::Category)
    &&& forall|i: int| 0 <= i < ss.len() ==> section_for(#[trigger] ss[i], es)
}

/// The grouping of `es`.
pub open spec fn grouping(es: Seq<EntryView>) -> Seq<SectionView> {
    choose|ss: Seq<SectionView>| aggregated(ss, es)
}

/// The scope that two optional names describe.
pub open spec fn scope_of(category: Option<&String>, usecase: Option<&String>) -> Scope {
    Scope {
        category: match category {
            Some(c) => Some(c@),
            None => None,
        },
        usecase: match usecase {
            Some(u) => Some(u@),
            None => None,
        },
    }
}

fn same_name(a: &String, b: &String) -> (r: bool)
    ensures
        r == (a@ == b@),
{
    *a == *b
}

fn field_of(e: &BenchmarkEntry, which: Field) -> (r: &String)
    ensures
        r@ == field(e@, which),
{
    match which {
        Field::Category => &e.category,
        Field::Usecase => &e.usecase,
        Field::TestFunction => &e.test_function,
        Field::Library => &e.library,
    }
}

fn within(e: &BenchmarkEntry, category: Option<&String>, usecase: Option<&String>) -> (r: bool)
    ensures
        r == in_scope(e@, scope_of(category, usecase)),
{
    let a = match category {
        Some(c) => same_name(&e.category, c),
        None => true,
    };
    let b = match usecase {
        Some(u) => same_name(&e.usecase, u),
        None => true,
    };
    a && b
}

/// What one more entry adds to the names observed.
proof fn lemma_observed_step(es: Seq<EntryView>, k: int, sc: Scope, which: Field)
    requires
        0 <= k < es.len(),
    ensures
        forall|x: Seq<char>| #[trigger]
            observed(es.take(k + 1), sc, which, x) <==> (observed(es.take(k), sc, which, x) || (
            in_scope(es[k], sc) && field(es[k], which) == x)),
{
    let a = es.take(k);
    let b = es.take(k + 1);
    assert forall|x: Seq<char>| #[trigger]
        observed(b, sc, which, x) <==> (observed(a, sc, which, x) || (in_scope(es[k], sc) && field(
            es[k],
            which,
        ) == x)) by {
        if observed(b, sc, which, x) {
            let i = choose|i: int|
                0 <= i < b.len() && in_scope(#[trigger] b[i], sc) && field(b[i], which) == x;
            if i < k {
                assert(a[i] == b[i]);
            }
        }
        if observed(a, sc, which, x) {
            let i = choose|i: int|
                0 <= i < a.len() && in_scope(#[trigger] a[i], sc) && field(a[i], which) == x;
            assert(b[i] == a[i]);
        }
        if in_scope(es[k], sc) && field(es[k], which) == x {
            assert(b[k] == es[k]);
        }
    }
}

/// The sorted list of the names that the entries under a scope have in `which`.
fn axis_of(
    es: &Vec<BenchmarkEntry>,
    which: Field,
    category: Option<&String>,
    usecase: Option<&String>,
) -> (r: Vec<String>)
    ensures
        is_axis(names(r@), entry_views(es@), scope_of(category, usecase), which),
{
    let ghost ev = entry_views(es@);
    let ghost sc = scope_of(category, usecase);
    let mut axis: Vec<String> = Vec::new();
    let mut k: usize = 0;
    while k < es.len()
        invariant
            k <= es.len(),
            ev == entry_views(es@),
            sc == scope_of(category, usecase),
            is_axis(names(axis@), ev.take(k as int), sc, which),
        decreases es.len() - k,
    {
        proof {
            lemma_observed_step(ev, k as int, sc, which);
            assert(ev[k as int] == es@[k as int]@);
        }
        if within(&es[k], category, usecase) {
            axis = axis_with(axis, field_of(&es[k], which));
        }
        k += 1;
    }
    proof {
        assert(ev.take(k as int) =~= ev);
    }
    axis
}

/// Where `name` stands on `axis`.
fn position(axis: &Vec<String>, name: &String) -> (r: Option<usize>)
    ensures
        match r {
            Some(i) => i < axis.len() && names(axis@)[i as int] == name@,
            None => !names(axis@).contains(name@),
        },
{
    let mut i: usize = 0;
    while i < axis.len()
        invariant
            i <= axis.len(),
            forall|k: int| 0 <= k < i ==> names(axis@)[k] != name@,
        decreases axis.len() - i,
    {
        if same_name(&axis[i], name) {
            return Some(i);
        }
        i += 1;
    }
    None
}

/// A grid of `rows` by `cols` cells, none of which holds a time.
fn empty_grid(rows: usize, cols: usize) -> (g: Vec<Vec<Option<u64>>>)
    ensures
        g.len() == rows,
        forall|r: int| 0 <= r < rows ==> (#[trigger] g[r]).len() == cols,
        forall|r: int, c: int| 0 <= r < rows && 0 <= c < cols ==> (#[trigger] g[r][c]) is None,
{
    let mut g: Vec<Vec<Option<u64>>> = Vec::new();
    let mut r: usize = 0;
    while r < rows
        invariant
            r <= rows,
            g.len() == r,
            forall|i: int| 0 <= i < r ==> (#[trigger] g[i]).len() == cols,
            forall|i: int, c: int| 0 <= i < r && 0 <= c < cols ==> (#[trigger] g[i][c]) is None,
        decreases rows - r,
    {
        let mut row: Vec<Option<u64>> = Vec::new();
        let mut c: usize = 0;
        while c < cols
            invariant
                c <= cols,
                row.len() == c,
                forall|j: int| 0 <= j < c ==> row[j] is None,
            decreases cols - c,
        {
            row.push(None);
            c += 1;
        }
        g.push(row);
        r += 1;
    }
    g
}

/// What one more entry changes in the times recorded.
proof fn lemma_recorded_step(
    es: Seq<EntryView>,
    k: int,
    cat: Seq<char>,
    uc: Seq<char>,
    tf: Seq<char>,
    lib: Seq<char>,
)
    requires
        0 <= k < es.len(),
    ensures
        recorded(es.take(k + 1), cat, uc, tf, lib) == if has_key(es[k], cat, uc, tf, lib) {
            Some(es[k].elapsed_picos)
        } else {
            recorded(es.take(k), cat, uc, tf, lib)
        },
{
    assert(es.take(k + 1).drop_last() =~= es.take(k));
    assert(es.take(k + 1).last() == es[k]);
}

/// The table of usecase `uc` within category `cat`: the axes are collected
/// first, then each entry of the usecase is written into its cell, a later
/// one over an earlier one.
fn build_table(es: &Vec<BenchmarkEntry>, cat: &String, uc: &String) -> (t: UsecaseTable)
    ensures
        t@.usecase == uc@,
        table_for(t@, entry_views(es@), cat@),
{
    let libraries = axis_of(es, Field::Library, Some(cat), Some(uc));
    let test_functions = axis_of(es, Field::TestFunction, Some(cat), Some(uc));
    let ghost ev = entry_views(es@);
    let ghost sc = scope_of(Some(cat), Some(uc));
    let ghost libs = names(libraries@);
    let ghost tfs = names(test_functions@);
    let mut cells = empty_grid(test_functions.len(), libraries.len());
    let mut k: usize = 0;
    while k < es.len()
        invariant
            k <= es.len(),
            ev == entry_views(es@),
            sc == scope_of(Some(cat), Some(uc)),
            libs == names(libraries@),
            tfs == names(test_functions@),
            is_axis(libs, ev, sc, Field::Library),
            is_axis(tfs, ev, sc, Field::TestFunction),
            cells.len() == tfs.len(),
            forall|r: int| 0 <= r < tfs.len() ==> (#[trigger] cells[r]).len() == libs.len(),
            forall|r: int, c: int|
                0 <= r < tfs.len() && 0 <= c < libs.len() ==> #[trigger] cells[r][c] == recorded(
                    ev.take(k as int),
                    cat@,
                    uc@,
                    tfs[r],
                    libs[c],
                ),
        decreases es.len() - k,
    {
        let e = &es[k];
        let ghost before = cells@;
        proof {
            assert(ev[k as int] == e@);
            assert forall|r: int, c: int| 0 <= r < tfs.len() && 0 <= c < libs.len() implies recorded(
                ev.take(k + 1),
                cat@,
                uc@,
                #[trigger] tfs[r],
                #[trigger] libs[c],
            ) == if has_key(e@, cat@, uc@, tfs[r], libs[c]) {
                Some(e.elapsed_picos)
            } else {
                before[r][c]
            } by {
                lemma_recorded_step(ev, k as int, cat@, uc@, tfs[r], libs[c]);
            }
        }
        if same_name(&e.category, cat) && same_name(&e.usecase, uc) {
            proof {
                assert(in_scope(ev[k as int], sc));
                assert(observed(ev, sc, Field::TestFunction, e@.test_function));
                assert(observed(ev, sc, Field::Library, e@.library));
                assert(tfs.contains(e@.test_function));
                assert(libs.contains(e@.library));
            }
            let row = position(&test_functions, &e.test_function);
            let col = position(&libraries, &e.library);
            match (row, col) {
                (Some(r0), Some(c0)) => {
                    cells[r0][c0] = Some(e.elapsed_picos);
                    proof {
                        assert forall|r: int, c: int|
                            0 <= r < tfs.len() && 0 <= c < libs.len() implies #[trigger] cells[r][c]
                                == recorded(ev.take(k + 1), cat@, uc@, tfs[r], libs[c]) by {
                            if r != r0 {
                                if tfs[r] == tfs[r0 as int] {
                                    lemma_sorted_distinct(tfs, r, r0 as int);
                                }
                                assert(cells[r] == before[r]);
                            } else if c != c0 {
                                if libs[c] == libs[c0 as int] {
                                    lemma_sorted_distinct(libs, c, c0 as int);
                                }
                            }
                        }
                    }
                },
                _ => {
                    assert(false);
                },
            }
        }
        k += 1;
    }
    let t = UsecaseTable { usecase: uc.clone(), libraries, test_functions, cells };
    proof {
        let v = t@;
        assert(ev.take(k as int) =~= ev);
        assert forall|r: int| 0 <= r < v.cells.len() implies (#[trigger] v.cells[r]).len()
            == v.libraries.len() by {
            assert(v.cells[r] == t.cells[r]@);
        }
        assert forall|i: int, j: int|
            0 <= i < v.test_functions.len() && 0 <= j < v.libraries.len() implies #[trigger] v.cell(
            i,
            j,
        ) == recorded(ev, cat@, v.usecase, v.test_functions[i], v.libraries[j]) by {
            assert(v.cells[i] == t.cells[i]@);
            assert(t.cells[i][j] == recorded(ev, cat@, uc@, tfs[i], libs[j]));
        }
    }
    t
}

/// The section of category `cat`.
fn build_section(es: &Vec<BenchmarkEntry>, cat: &String) -> (s: CategorySection)
    ensures
        s@.category == cat@,
        section_for(s@, entry_views(es@)),
{
    let usecases = axis_of(es, Field::Usecase, Some(cat), None);
    let ghost ev = entry_views(es@);
    let mut tables: Vec<UsecaseTable> = Vec::new();
    let mut j: usize = 0;
    while j < usecases.len()
        invariant
            j <= usecases.len(),
            ev == entry_views(es@),
            tables.len() == j,
            forall|i: int|
                0 <= i < j ==> (#[trigger] tables[i])@.usecase == names(usecases@)[i] && table_for(
                    tables[i]@,
                    ev,
                    cat@,
                ),
        decreases usecases.len() - j,
    {
        let t = build_table(es, cat, &usecases[j]);
        tables.push(t);
        j += 1;
    }
    let s = CategorySection { category: cat.clone(), tables };
    proof {
        assert(table_names(s@.tables) =~= names(usecases@));
        assert forall|i: int| 0 <= i < s@.tables.len() implies table_for(
            #[trigger] s@.tables[i],
            ev,
            s@.category,
        ) by {
            assert(s@.tables[i] == s.tables[i]@);
        }
    }
    s
}

/// Groups the entries by category, usecase, test function and library.
///
/// There is one section for each category, in lexicographic order; in it one
/// table for each usecase seen under that category, in lexicographic order;
/// the axes of a table list the libraries and the test functions seen under
/// its usecase; and a cell holds the time of the last entry with its key.
pub fn organize_into_sections(entries: Vec<BenchmarkEntry>) -> (sections: Vec<CategorySection>)
    ensures
        aggregated(section_views(sections@), entry_views(entries@)),
        section_views(sections@) == grouping(entry_views(entries@)),
{
    let categories = axis_of(&entries, Field::Category, None, None);
    let ghost ev = entry_views(entries@);
    let mut sections: Vec<CategorySection> = Vec::new();
    let mut i: usize = 0;
    while i < categories.len()
        invariant
            i <= categories.len(),
            ev == entry_views(entries@),
            sections.len() == i,
            forall|k: int|
                0 <= k < i ==> (#[trigger] sections[k])@.category == names(categories@)[k]
                    && section_for(sections[k]@, ev),
        decreases categories.len() - i,
    {
        let s = build_section(&entries, &categories[i]);
        sections.push(s);
        i += 1;
    }
    proof {
        let ss = section_views(sections@);
        assert(section_names(ss) =~= names(categories@));
        assert forall|k: int| 0 <= k < ss.len() implies section_for(#[trigger] ss[k], ev) by {
            assert(ss[k] == sections[k]@);
        }
        assert(aggregated(ss, ev));
        lemma_aggregated_unique(ss, grouping(ev), ev);
    }
    sections
}

} // verus!
