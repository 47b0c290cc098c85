//! Rendering of sections as Markdown: a heading for each category, a
//! sub-heading and a pipe-delimited table for each usecase.
//!
//! Sections and tables are written in the order in which they are given.

use crate::aggregate::{aggregated, grouping, organize_into_sections};
use crate::api_client::{result_views, FetchRunBenchmarkResult};
use crate::identifier::{parse_benchmark_results, parsed};
use crate::table::{names, section_views, CategorySection, SectionView, TableView, UsecaseTable};
use crate::timefmt::{format_time, format_time_human_readable};
use vstd::prelude::*;

verus! {

/// The header cells: one for each library.
pub open spec fn header_cells(libs: Seq<Seq<char>>) -> Seq<char>
    decreases libs.len(),
{
    if libs.len() == 0 {
        seq![]
    } else {
        header_cells(libs.drop_last()) + " "@ + libs.last() + " |"@
    }
}

/// The cells of the separator row under `n` library columns.
pub open spec fn rule_cells(n: nat) -> Seq<char>
    decreases n,
{
    if n == 0 {
        seq![]
    } else {
        rule_cells((n - 1) as nat) + "------|"@
    }
}

/// One data cell: the time in its unit, or a dash where none was recorded.
pub open spec fn cell_text(t: Option<u64>) -> Seq<char> {
    match t {
        Some(picos) => " "@ + format_time(picos as nat) + " |"@,
        None => " - |"@,
    }
}

/// The first `n` data cells of row `r`.
pub open spec fn row_cells(t: TableView, r: int, n: nat) -> Seq<char>
    decreases n,
{
    if n == 0 {
        seq![]
    } else {
        row_cells(t, r, (n - 1) as nat) + cell_text(t.cell(r, n - 1))
    }
}

/// The line of row `r`.
pub open spec fn row_text(t: TableView, r: int) -> Seq<char> {
    "| "@ + t.test_functions[r] + " |"@ + row_cells(t, r, t.libraries.len()) + "\n"@
}

/// The lines of the first `n` rows.
pub open spec fn rows_text(t: TableView, n: nat) -> Seq<char>
    decreases n,
{
    if n == 0 {
        seq![]
    } else {
        rows_text(t, (n - 1) as nat) + row_text(t, n - 1)
    }
}

/// A table: sub-heading, header row, separator row, data rows, blank line.
pub open spec fn table_text(t: TableView) -> Seq<char> {
    "### "@ + t.usecase + "\n\n"@ + "| Test |"@ + header_cells(t.libraries) + "\n|------|"@
        + rule_cells(t.libraries.len()) + "\n"@ + rows_text(t, t.test_functions.len()) + "\n"@
}

/// The tables of a section, one after the other.
pub open spec fn tables_text(ts: Seq<TableView>) -> Seq<char>
    decreases ts.len(),
{
    if ts.len() == 0 {
        seq![]
    } else {
        tables_text(ts.drop_last()) + table_text(ts.last())
    }
}

/// A section: heading, then its tables.
pub open spec fn section_text(s: SectionView) -> Seq<char> {
    "## "@ + s.category + "\n\n"@ + tables_text(s.tables)
}

/// The whole report: the sections, one after the other.
pub open spec fn report_text(ss: Seq<SectionView>) -> Seq<char>
    decreases ss.len(),
{
    if ss.len() == 0 {
        seq![]
    } else {
        report_text(ss.drop_last()) + section_text(ss.last())
    }
}

fn render_header_cells(libs: &Vec<String>) -> (out: String)
    ensures
        out@ == header_cells(names(libs@)),
{
    let ghost ns = names(libs@);
    let mut out = String::new();
    let mut i: usize = 0;
    while i < libs.len()
        invariant
            i <= libs.len(),
            ns == names(libs@),
            out@ == header_cells(ns.take(i as int)),
        decreases libs.len() - i,
    {
        proof {
            assert(ns.take(i + 1).drop_last() =~= ns.take(i as int));
            assert(ns.take(i + 1).last() == libs[i as int]@);
        }
        out.append(" ");
        out.append(libs[i].as_str());
        out.append(" |");
        i += 1;
    }
    proof {
        assert(ns.take(i as int) =~= ns);
    }
    out
}

fn render_rule_cells(n: usize) -> (out: String)
    ensures
        out@ == rule_cells(n as nat),
{
    let mut out = String::new();
    let mut i: usize = 0;
    while i < n
        invariant
            i <= n,
            out@ == rule_cells(i as nat),
        decreases n - i,
    {
        out.append("------|");
        i += 1;
    }
    out
}

fn render_cell(t: Option<u64>) -> (out: String)
    ensures
        out@ == cell_text(t),
{
    match t {
        Some(picos) => {
            let mut out = " ".to_owned();
            let time = format_time_human_readable(picos);
            out.append(time.as_str());
            out.append(" |");
            out
        },
        None => " - |".to_owned(),
    }
}

fn render_row(table: &UsecaseTable, r: usize) -> (out: String)
    requires
        r < table.test_functions.len(),
    ensures
        out@ == row_text(table@, r as int),
{
    let mut cells = String::new();
    let mut c: usize = 0;
    while c < table.libraries.len()
        invariant
            c <= table.libraries.len(),
            cells@ == row_cells(table@, r as int, c as nat),
        decreases table.libraries.len() - c,
    {
        let cell = render_cell(table.cell(r, c));
        cells.append(cell.as_str());
        c += 1;
    }
    let mut out = "| ".to_owned();
    out.append(table.test_functions[r].as_str());
    out.append(" |");
    out.append(cells.as_str());
    out.append("\n");
    out
}

/// Renders one table.
pub fn render_table(table: &UsecaseTable) -> (out: String)
    ensures
        out@ == table_text(table@),
{
    let mut rows = String::new();
    let mut r: usize = 0;
    while r < table.test_functions.len()
        invariant
            r <= table.test_functions.len(),
            rows@ == rows_text(table@, r as nat),
        decreases table.test_functions.len() - r,
    {
        let row = render_row(table, r);
        rows.append(row.as_str());
        r += 1;
    }
    let header = render_header_cells(&table.libraries);
    let rule = render_rule_cells(table.libraries.len());
    let mut out = "### ".to_owned();
    out.append(table.usecase.as_str());
    out.append("\n\n");
    out.append("| Test |");
    out.append(header.as_str());
    out.append("\n|------|");
    out.append(rule.as_str());
    out.append("\n");
    out.append(rows.as_str());
    out.append("\n");
    out
}

/// Renders one section.
pub fn render_section(section: &CategorySection) -> (out: String)
    ensures
        out@ == section_text(section@),
{
    let ghost ts = section@.tables;
    let mut tables = String::new();
    let mut j: usize = 0;
    while j < section.tables.len()
        invariant
            j <= section.tables.len(),
            ts == section@.tables,
            tables@ == tables_text(ts.take(j as int)),
        decreases section.tables.len() - j,
    {
        proof {
            assert(ts.take(j + 1).drop_last() =~= ts.take(j as int));
            assert(ts.take(j + 1).last() == section.tables[j as int]@);
        }
        let table = render_table(&section.tables[j]);
        tables.append(table.as_str());
        j += 1;
    }
    proof {
        assert(ts.take(j as int) =~= ts);
    }
    let mut out = "## ".to_owned();
    out.append(section.category.as_str());
    out.append("\n\n");
    out.append(tables.as_str());
    out
}

/// Renders the report: every section in the order given, and in each its
/// tables in the order given. No sections give the empty text.
pub fn generate_markdown_from_sections(sections: Vec<CategorySection>) -> (out: String)
    ensures
        out@ == report_text(section_views(sections@)),
{
    let ghost ss = section_views(sections@);
    let mut out = String::new();
    let mut i: usize = 0;
    while i < sections.len()
        invariant
            i <= sections.len(),
            ss == section_views(sections@),
            out@ == report_text(ss.take(i as int)),
        decreases sections.len() - i,
    {
        proof {
            assert(ss.take(i + 1).drop_last() =~= ss.take(i as int));
            assert(ss.take(i + 1).last() == sections[i as int]@);
        }
        let section = render_section(&sections[i]);
        out.append(section.as_str());
        i += 1;
    }
    proof {
        assert(ss.take(i as int) =~= ss);
    }
    out
}

/// Renders the report of a run's results: the results are decoded, grouped
/// and rendered. Results that cannot be decoded are left out; no results
/// give the empty text.
pub fn generate_markdown_recap(results: &[FetchRunBenchmarkResult]) -> (out: String)
    ensures
        aggregated(grouping(parsed(result_views(results@))), parsed(result_views(results@))),
        out@ == report_text(grouping(parsed(result_views(results@)))),
{
    let entries = parse_benchmark_results(results);
    let sections = organize_into_sections(entries);
    generate_markdown_from_sections(sections)
}

} // verus!
