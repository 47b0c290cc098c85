//! What holds of every grouping: each entry has its one cell, the axes are
//! complete, and the entries determine the grouping.

use crate::aggregate::{
    aggregated, field, has_key, in_scope, observed, recorded, section_for, table_for, Field,
    Scope,
};
use crate::axis::{lemma_sorted_distinct, lemma_sorted_unique, sorted};
use crate::table::{section_names, table_names, EntryView, SectionView, TableView};
use vstd::prelude::*;

verus! {

/// Whether the cell at section `at.0`, table `at.1`, row `at.2`, column `at.3`
/// of `ss` is the one that the key of `e` names.
pub open spec fn keyed_at(ss: Seq<SectionView>, at: (int, int, int, int), e: EntryView) -> bool {
    &&& 0 <= at.0 < ss.len()
    &&& ss[at.0].category == e.category
    &&& 0 <= at.1 < ss[at.0].tables.len()
    &&& ss[at.0].tables[at.1].usecase == e.usecase
    &&& 0 <= at.2 < ss[at.0].tables[at.1].test_functions.len()
    &&& ss[at.0].tables[at.1].test_functions[at.2] == e.test_function
    &&& 0 <= at.3 < ss[at.0].tables[at.1].libraries.len()
    &&& ss[at.0].tables[at.1].libraries[at.3] == e.library
}

/// A time is recorded under a key exactly when some entry has the key, and
/// it is then the time of the last such entry.
pub proof fn lemma_recorded(
    es: Seq<EntryView>,
    cat: Seq<char>,
    uc: Seq<char>,
    tf: Seq<char>,
    lib: Seq<char>,
)
    ensures
        match recorded(es, cat, uc, tf, lib) {
            Some(t) => exists|k: int|
                0 <= k < es.len() && has_key(#[trigger] es[k], cat, uc, tf, lib)
                    && es[k].elapsed_picos == t && forall|m: int|
                    k < m < es.len() ==> !has_key(#[trigger] es[m], cat, uc, tf, lib),
            None => forall|k: int| 0 <= k < es.len() ==> !has_key(#[trigger] es[k], cat, uc, tf, lib),
        },
    decreases es.len(),
{
    if es.len() > 0 {
        let rest = es.drop_last();
        if has_key(es.last(), cat, uc, tf, lib) {
            assert(has_key(es[es.len() - 1], cat, uc, tf, lib));
        } else {
            lemma_recorded(rest, cat, uc, tf, lib);
            match recorded(rest, cat, uc, tf, lib) {
                Some(t) => {
                    let k = choose|k: int|
                        0 <= k < rest.len() && has_key(#[trigger] rest[k], cat, uc, tf, lib)
                            && rest[k].elapsed_picos == t && forall|m: int|
                            k < m < rest.len() ==> !has_key(#[trigger] rest[m], cat, uc, tf, lib);
                    assert(es[k] == rest[k]);
                    assert forall|m: int| k < m < es.len() implies !has_key(
                        #[trigger] es[m],
                        cat,
                        uc,
                        tf,
                        lib,
                    ) by {
                        if m < rest.len() {
                            assert(es[m] == rest[m]);
                        }
                    }
                },
                None => {
                    assert forall|k: int| 0 <= k < es.len() implies !has_key(
                        #[trigger] es[k],
                        cat,
                        uc,
                        tf,
                        lib,
                    ) by {
                        if k < rest.len() {
                            assert(es[k] == rest[k]);
                        }
                    }
                },
            }
        }
    }
}

/// Each entry lands in exactly one cell of the grouping: the cell that its
/// key names exists, no other cell has that key, and the cell holds the time
/// of the last entry with the key, which is the entry's own time where no
/// later entry shares its key.
pub proof fn lemma_partition(ss: Seq<SectionView>, es: Seq<EntryView>, k: int) -> (at: (
    int,
    int,
    int,
    int,
))
    requires
        aggregated(ss, es),
        0 <= k < es.len(),
    ensures
        keyed_at(ss, at, es[k]),
        forall|other: (int, int, int, int)| keyed_at(ss, other, es[k]) ==> other == at,
        ss[at.0].tables[at.1].cell(at.2, at.3) == recorded(
            es,
            es[k].category,
            es[k].usecase,
            es[k].test_function,
            es[k].library,
        ),
        ss[at.0].tables[at.1].cell(at.2, at.3) is Some,
        (forall|m: int|
            k < m < es.len() ==> !has_key(
                #[trigger] es[m],
                es[k].category,
                es[k].usecase,
                es[k].test_function,
                es[k].library,
            )) ==> ss[at.0].tables[at.1].cell(at.2, at.3) == Some(es[k].elapsed_picos),
{
    let e = es[k];
    let all = Scope { category: None, usecase: None };
    assert(in_scope(es[k], all));
    assert(observed(es, all, Field::Category, e.category));
    let cats = section_names(ss);
    assert(cats.contains(e.category));
    let i = choose|i: int| 0 <= i < cats.len() && cats[i] == e.category;
    let s = ss[i];
    assert(section_for(s, es));
    let in_cat = Scope { category: Some(e.category), usecase: None };
    assert(in_scope(es[k], in_cat));
    assert(observed(es, in_cat, Field::Usecase, e.usecase));
    let ucs = table_names(s.tables);
    assert(ucs.contains(e.usecase));
    let j = choose|j: int| 0 <= j < ucs.len() && ucs[j] == e.usecase;
    let t = s.tables[j];
    assert(table_for(t, es, s.category));
    let in_uc = Scope { category: Some(e.category), usecase: Some(e.usecase) };
    assert(in_scope(es[k], in_uc));
    assert(observed(es, in_uc, Field::TestFunction, e.test_function));
    assert(observed(es, in_uc, Field::Library, e.library));
    assert(t.test_functions.contains(e.test_function));
    assert(t.libraries.contains(e.library));
    let r = choose|r: int| 0 <= r < t.test_functions.len() && t.test_functions[r] == e.test_function;
    let c = choose|c: int| 0 <= c < t.libraries.len() && t.libraries[c] == e.library;
    let at = (i, j, r, c);
    assert forall|other: (int, int, int, int)| keyed_at(ss, other, e) implies other == at by {
        assert(cats[other.0] == cats[i]);
        lemma_sorted_distinct(cats, other.0, i);
        assert(ucs[other.1] == ucs[j]);
        lemma_sorted_distinct(ucs, other.1, j);
        lemma_sorted_distinct(t.test_functions, other.2, r);
        lemma_sorted_distinct(t.libraries, other.3, c);
    }
    assert(t.cell(r, c) == recorded(es, e.category, e.usecase, e.test_function, e.library));
    lemma_recorded(es, e.category, e.usecase, e.test_function, e.library);
    assert(has_key(es[k], e.category, e.usecase, e.test_function, e.library));
    at
}

/// A cell holds a time exactly when some entry has the cell's key, and the
/// time is then that of the last such entry: no cell is filled from nothing.
pub proof fn lemma_cell_from_entry(
    ss: Seq<SectionView>,
    es: Seq<EntryView>,
    i: int,
    j: int,
    r: int,
    c: int,
)
    requires
        aggregated(ss, es),
        0 <= i < ss.len(),
        0 <= j < ss[i].tables.len(),
        0 <= r < ss[i].tables[j].test_functions.len(),
        0 <= c < ss[i].tables[j].libraries.len(),
    ensures
        ({
            let t = ss[i].tables[j];
            let (cat, uc, tf, lib) = (ss[i].category, t.usecase, t.test_functions[r], t.libraries[c]);
            match t.cell(r, c) {
                Some(time) => exists|k: int|
                    0 <= k < es.len() && has_key(#[trigger] es[k], cat, uc, tf, lib)
                        && es[k].elapsed_picos == time && forall|m: int|
                        k < m < es.len() ==> !has_key(#[trigger] es[m], cat, uc, tf, lib),
                None => forall|k: int|
                    0 <= k < es.len() ==> !has_key(#[trigger] es[k], cat, uc, tf, lib),
            }
        }),
{
    let s = ss[i];
    let t = s.tables[j];
    assert(section_for(s, es));
    assert(table_for(t, es, s.category));
    assert(t.cell(r, c) == recorded(es, s.category, t.usecase, t.test_functions[r], t.libraries[c]));
    lemma_recorded(es, s.category, t.usecase, t.test_functions[r], t.libraries[c]);
}

/// The axes of a table are complete and hold nothing else: a name is on an
/// axis exactly when some entry of the table's category and usecase has it.
pub proof fn lemma_axes_complete(ss: Seq<SectionView>, es: Seq<EntryView>, i: int, j: int)
    requires
        aggregated(ss, es),
        0 <= i < ss.len(),
        0 <= j < ss[i].tables.len(),
    ensures
        forall|x: Seq<char>| #[trigger]
            ss[i].tables[j].libraries.contains(x) <==> exists|k: int|
                0 <= k < es.len() && (#[trigger] es[k]).category == ss[i].category && es[k].usecase
                    == ss[i].tables[j].usecase && es[k].library == x,
        forall|x: Seq<char>| #[trigger]
            ss[i].tables[j].test_functions.contains(x) <==> exists|k: int|
                0 <= k < es.len() && (#[trigger] es[k]).category == ss[i].category && es[k].usecase
                    == ss[i].tables[j].usecase && es[k].test_function == x,
{
    let s = ss[i];
    let t = s.tables[j];
    assert(section_for(s, es));
    assert(table_for(t, es, s.category));
    let sc = Scope { category: Some(s.category), usecase: Some(t.usecase) };
    assert forall|x: Seq<char>| #[trigger]
        t.libraries.contains(x) <==> exists|k: int|
            0 <= k < es.len() && (#[trigger] es[k]).category == s.category && es[k].usecase
                == t.usecase && es[k].library == x by {
        if observed(es, sc, Field::Library, x) {
            let k = choose|k: int|
                0 <= k < es.len() && in_scope(#[trigger] es[k], sc) && field(es[k], Field::Library)
                    == x;
            assert(es[k].category == s.category && es[k].usecase == t.usecase);
        }
        if exists|k: int|
            0 <= k < es.len() && (#[trigger] es[k]).category == s.category && es[k].usecase
                == t.usecase && es[k].library == x {
            let k = choose|k: int|
                0 <= k < es.len() && (#[trigger] es[k]).category == s.category && es[k].usecase
                    == t.usecase && es[k].library == x;
            assert(in_scope(es[k], sc) && field(es[k], Field::Library) == x);
        }
    }
    assert forall|x: Seq<char>| #[trigger]
        t.test_functions.contains(x) <==> exists|k: int|
            0 <= k < es.len() && (#[trigger] es[k]).category == s.category && es[k].usecase
                == t.usecase && es[k].test_function == x by {
        if observed(es, sc, Field::TestFunction, x) {
            let k = choose|k: int|
                0 <= k < es.len() && in_scope(#[trigger] es[k], sc) && field(
                    es[k],
                    Field::TestFunction,
                ) == x;
            assert(es[k].category == s.category && es[k].usecase == t.usecase);
        }
        if exists|k: int|
            0 <= k < es.len() && (#[trigger] es[k]).category == s.category && es[k].usecase
                == t.usecase && es[k].test_function == x {
            let k = choose|k: int|
                0 <= k < es.len() && (#[trigger] es[k]).category == s.category && es[k].usecase
                    == t.usecase && es[k].test_function == x;
            assert(in_scope(es[k], sc) && field(es[k], Field::TestFunction) == x);
        }
    }
}

/// The entries and the names of a category and a usecase determine the table.
pub proof fn lemma_table_unique(t: TableView, u: TableView, es: Seq<EntryView>, cat: Seq<char>)
    requires
        table_for(t, es, cat),
        table_for(u, es, cat),
        t.usecase == u.usecase,
    ensures
        t == u,
{
    lemma_sorted_unique(t.libraries, u.libraries);
    lemma_sorted_unique(t.test_functions, u.test_functions);
    assert forall|r: int| 0 <= r < t.cells.len() implies #[trigger] t.cells[r] == u.cells[r] by {
        assert forall|c: int| 0 <= c < t.cells[r].len() implies t.cells[r][c] == u.cells[r][c] by {
            assert(t.cell(r, c) == u.cell(r, c));
        }
        assert(t.cells[r] =~= u.cells[r]);
    }
    assert(t.cells =~= u.cells);
}

/// The entries and the name of a category determine the section.
pub proof fn lemma_section_unique(s: SectionView, u: SectionView, es: Seq<EntryView>)
    requires
        section_for(s, es),
        section_for(u, es),
        s.category == u.category,
    ensures
        s == u,
{
    lemma_sorted_unique(table_names(s.tables), table_names(u.tables));
    assert(s.tables.len() == table_names(s.tables).len());
    assert(u.tables.len() == table_names(u.tables).len());
    assert forall|j: int| 0 <= j < s.tables.len() implies #[trigger] s.tables[j] == u.tables[j] by {
        assert(table_names(s.tables)[j] == s.tables[j].usecase);
        assert(table_names(u.tables)[j] == u.tables[j].usecase);
        lemma_table_unique(s.tables[j], u.tables[j], es, s.category);
    }
    assert(s.tables =~= u.tables);
}

/// The grouping is a function of the entries: they have one grouping only.
pub proof fn lemma_aggregated_unique(a: Seq<SectionView>, b: Seq<SectionView>, es: Seq<EntryView>)
    requires
        aggregated(a, es),
        aggregated(b, es),
    ensures
        a == b,
{
    lemma_sorted_unique(section_names(a), section_names(b));
    assert(a.len() == section_names(a).len());
    assert(b.len() == section_names(b).len());
    assert forall|i: int| 0 <= i < a.len() implies #[trigger] a[i] == b[i] by {
        assert(section_names(a)[i] == a[i].category);
        assert(section_names(b)[i] == b[i].category);
        lemma_section_unique(a[i], b[i], es);
    }
    assert(a =~= b);
}

/// A grouping is well formed: its sections are in strictly increasing order
/// of category, and each of them is well formed.
pub proof fn lemma_grouping_well_formed(ss: Seq<SectionView>, es: Seq<EntryView>)
    requires
        aggregated(ss, es),
    ensures
        sorted(section_names(ss)),
        forall|i: int| 0 <= i < ss.len() ==> (#[trigger] ss[i]).well_formed(),
{
    assert forall|i: int| 0 <= i < ss.len() implies (#[trigger] ss[i]).well_formed() by {
        let s = ss[i];
        assert(section_for(s, es));
        assert forall|j: int| 0 <= j < s.tables.len() implies (#[trigger] s.tables[j]).well_formed() by {
            assert(table_for(s.tables[j], es, s.category));
        }
    }
}

} // verus!
