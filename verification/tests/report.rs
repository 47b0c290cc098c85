use collect::aggregate::organize_into_sections;
use collect::api_client::{FetchRunBenchmark, FetchRunBenchmarkResult};
use collect::identifier::parse_benchmark_results;
use collect::render::{
    generate_markdown_from_sections, generate_markdown_recap, render_section, render_table,
};
use collect::table::{BenchmarkEntry, CategorySection, UsecaseTable};

fn picos(seconds: f64) -> u64 {
    (seconds * 1e12).round() as u64
}

fn result(uri: &str, seconds: f64) -> FetchRunBenchmarkResult {
    FetchRunBenchmarkResult {
        time_picos: picos(seconds),
        benchmark: FetchRunBenchmark { name: String::new(), uri: uri.to_string() },
    }
}

fn entry(cat: &str, uc: &str, tf: &str, lib: &str, t: u64) -> BenchmarkEntry {
    BenchmarkEntry {
        category: cat.to_string(),
        usecase: uc.to_string(),
        test_function: tf.to_string(),
        library: lib.to_string(),
        elapsed_picos: t,
    }
}

fn scenario() -> Vec<FetchRunBenchmarkResult> {
    vec![
        result("cat/use.rs::fn1::libA", 0.002),
        result("cat/use.rs::fn1::libB", 0.5),
        result("cat/use.rs::fn2::libA", 0.001),
    ]
}

#[test]
fn end_to_end_report() {
    let report = generate_markdown_recap(&scenario());
    assert!(report.contains("## cat\n"));
    assert!(report.contains("### use\n"));
    assert!(report.contains("| Test | libA | libB |"));
    assert!(report.contains("| fn1 | 2ms | 500ms |"));
    assert!(report.contains("| fn2 | 1ms | - |"));
    assert_eq!(
        report,
        "## cat\n\n### use\n\n| Test | libA | libB |\n|------|------|------|\n| fn1 | 2ms | 500ms |\n| fn2 | 1ms | - |\n\n"
    );
}

#[test]
fn end_to_end_grouping() {
    let sections = organize_into_sections(parse_benchmark_results(&scenario()));
    assert_eq!(sections.len(), 1);
    assert_eq!(sections[0].category, "cat");
    assert_eq!(sections[0].tables.len(), 1);
    let t = &sections[0].tables[0];
    assert_eq!(t.usecase, "use");
    assert_eq!(t.libraries, vec!["libA", "libB"]);
    assert_eq!(t.test_functions, vec!["fn1", "fn2"]);
    assert_eq!(
        t.cells,
        vec![
            vec![Some(2_000_000_000), Some(500_000_000_000)],
            vec![Some(1_000_000_000), None]
        ]
    );
    assert_eq!(t.cell(0, 1), Some(500_000_000_000));
    assert_eq!(t.cell(1, 1), None);
    assert_eq!(t.cell(2, 0), None);
    assert_eq!(t.cell(0, 2), None);
}

#[test]
fn no_results_give_an_empty_report() {
    assert_eq!(generate_markdown_recap(&[]), "");
    assert_eq!(generate_markdown_recap(&[result("unrecognizable", 1.0)]), "");
    assert!(organize_into_sections(Vec::new()).is_empty());
    assert_eq!(generate_markdown_from_sections(Vec::new()), "");
}

#[test]
fn every_entry_lands_in_exactly_one_cell() {
    let entries = vec![
        entry("b", "u2", "f1", "l1", 1),
        entry("a", "u1", "f2", "l2", 2),
        entry("b", "u1", "f1", "l2", 3),
        entry("a", "u1", "f1", "l1", 4),
        entry("b", "u2", "f2", "l3", 5),
        entry("a", "u1", "f2", "l1", 6),
    ];
    let keys: Vec<(String, String, String, String, u64)> = entries
        .iter()
        .map(|e| {
            (
                e.category.clone(),
                e.usecase.clone(),
                e.test_function.clone(),
                e.library.clone(),
                e.elapsed_picos,
            )
        })
        .collect();
    let sections = organize_into_sections(entries);
    let mut filled = 0;
    for s in &sections {
        for t in &s.tables {
            for row in &t.cells {
                filled += row.iter().filter(|c| c.is_some()).count();
            }
        }
    }
    assert_eq!(filled, keys.len());
    for (cat, uc, tf, lib, time) in keys {
        let mut hits = 0;
        for s in &sections {
            for t in &s.tables {
                for (r, row_name) in t.test_functions.iter().enumerate() {
                    for (c, col_name) in t.libraries.iter().enumerate() {
                        if s.category == cat
                            && t.usecase == uc
                            && *row_name == tf
                            && *col_name == lib
                        {
                            hits += 1;
                            assert_eq!(t.cell(r, c), Some(time));
                        }
                    }
                }
            }
        }
        assert_eq!(hits, 1);
    }
}

#[test]
fn axes_hold_exactly_the_names_seen() {
    let entries = vec![
        entry("c", "u", "f2", "zeta", 1),
        entry("c", "u", "f1", "alpha", 2),
        entry("c", "u", "f2", "alpha", 3),
        entry("c", "other", "g", "beta", 4),
        entry("d", "u", "h", "gamma", 5),
    ];
    let sections = organize_into_sections(entries);
    assert_eq!(sections.len(), 2);
    assert_eq!(sections[0].category, "c");
    assert_eq!(sections[1].category, "d");
    assert_eq!(sections[0].tables.len(), 2);
    assert_eq!(sections[0].tables[0].usecase, "other");
    assert_eq!(sections[0].tables[0].libraries, vec!["beta"]);
    assert_eq!(sections[0].tables[0].test_functions, vec!["g"]);
    assert_eq!(sections[0].tables[1].usecase, "u");
    assert_eq!(sections[0].tables[1].libraries, vec!["alpha", "zeta"]);
    assert_eq!(sections[0].tables[1].test_functions, vec!["f1", "f2"]);
    assert_eq!(
        sections[0].tables[1].cells,
        vec![vec![Some(2), None], vec![Some(3), Some(1)]]
    );
    assert_eq!(sections[1].tables.len(), 1);
    assert_eq!(sections[1].tables[0].usecase, "u");
    assert_eq!(sections[1].tables[0].libraries, vec!["gamma"]);
    assert_eq!(sections[1].tables[0].test_functions, vec!["h"]);
}

#[test]
fn the_last_entry_with_a_key_wins() {
    let entries = vec![
        entry("c", "u", "f", "l", 1),
        entry("c", "u", "f", "m", 2),
        entry("c", "u", "f", "l", 3),
    ];
    let sections = organize_into_sections(entries);
    assert_eq!(sections.len(), 1);
    let t = &sections[0].tables[0];
    assert_eq!(t.libraries, vec!["l", "m"]);
    assert_eq!(t.cells, vec![vec![Some(3), Some(2)]]);
}

#[test]
fn grouping_does_not_depend_on_the_order_of_distinct_entries() {
    let a = organize_into_sections(vec![
        entry("x", "u", "f", "l1", 1),
        entry("x", "u", "f", "l2", 2),
        entry("w", "v", "g", "l1", 3),
    ]);
    let b = organize_into_sections(vec![
        entry("w", "v", "g", "l1", 3),
        entry("x", "u", "f", "l2", 2),
        entry("x", "u", "f", "l1", 1),
    ]);
    assert_eq!(generate_markdown_from_sections(a), generate_markdown_from_sections(b));
}

#[test]
fn sections_and_tables_are_rendered_in_the_order_given() {
    let report = generate_markdown_recap(&[
        result("zoo/b.rs::f::l", 1.0),
        result("art/z.rs::f::l", 2.0),
        result("art/a.rs::f::l", 3.0),
    ]);
    assert_eq!(
        report,
        "## art\n\n### a\n\n| Test | l |\n|------|------|\n| f | 3s |\n\n### z\n\n| Test | l |\n|------|------|\n| f | 2s |\n\n## zoo\n\n### b\n\n| Test | l |\n|------|------|\n| f | 1s |\n\n"
    );
}

#[test]
fn a_table_without_columns_or_rows_is_rendered() {
    let t = UsecaseTable {
        usecase: "empty".to_string(),
        libraries: Vec::new(),
        test_functions: Vec::new(),
        cells: Vec::new(),
    };
    assert_eq!(render_table(&t), "### empty\n\n| Test |\n|------|\n\n");
    let s = CategorySection { category: "c".to_string(), tables: vec![t] };
    assert_eq!(render_section(&s), "## c\n\n### empty\n\n| Test |\n|------|\n\n");
    let bare = CategorySection { category: "c".to_string(), tables: Vec::new() };
    assert_eq!(generate_markdown_from_sections(vec![bare]), "## c\n\n");
}

#[test]
fn a_cell_outside_the_grid_is_rendered_as_missing() {
    let t = UsecaseTable {
        usecase: "u".to_string(),
        libraries: vec!["a".to_string(), "b".to_string()],
        test_functions: vec!["f".to_string(), "g".to_string()],
        cells: vec![vec![Some(1_000)]],
    };
    assert_eq!(
        render_table(&t),
        "### u\n\n| Test | a | b |\n|------|------|------|\n| f | 1ns | - |\n| g | - | - |\n\n"
    );
}
