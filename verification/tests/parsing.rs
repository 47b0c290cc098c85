use collect::api_client::{FetchRunBenchmark, FetchRunBenchmarkResult};
use collect::identifier::{parse_benchmark_results, parse_identifier};
use collect::text::{chars_of, compare_names, find_in, matches_at, NameOrder};

fn result(uri: &str, time_picos: u64) -> FetchRunBenchmarkResult {
    FetchRunBenchmarkResult {
        time_picos,
        benchmark: FetchRunBenchmark { name: String::new(), uri: uri.to_string() },
    }
}

#[test]
fn well_formed_identifier_gives_all_four_names() {
    let e = parse_identifier("cat/use.rs::fn1::libA", 42).unwrap();
    assert_eq!(e.category, "cat");
    assert_eq!(e.usecase, "use");
    assert_eq!(e.test_function, "fn1");
    assert_eq!(e.library, "libA");
    assert_eq!(e.elapsed_picos, 42);
}

#[test]
fn malformed_identifier_is_skipped() {
    let results = vec![result("onlyonepart", 1), result("cat/use.rs::fn1::libA", 2)];
    let entries = parse_benchmark_results(&results);
    assert_eq!(entries.len(), 1);
    assert_eq!(entries[0].category, "cat");
    assert_eq!(entries[0].usecase, "use");
    assert_eq!(entries[0].test_function, "fn1");
    assert_eq!(entries[0].library, "libA");
    assert_eq!(entries[0].elapsed_picos, 2);
}

#[test]
fn two_parts_are_too_few() {
    assert!(parse_identifier("cat/use.rs::fn1", 1).is_none());
    assert!(parse_identifier("", 1).is_none());
    assert!(parse_identifier("a:b:c", 1).is_none());
}

#[test]
fn missing_second_segment_gives_the_default_usecase() {
    let e = parse_identifier("cat::fn1::libA", 7).unwrap();
    assert_eq!(e.category, "cat");
    assert_eq!(e.usecase, "default");
    assert_eq!(e.test_function, "fn1");
    assert_eq!(e.library, "libA");
}

#[test]
fn parts_after_the_third_are_ignored() {
    let e = parse_identifier("cat/use.rs::fn1::libA::extra::more", 7).unwrap();
    assert_eq!(e.test_function, "fn1");
    assert_eq!(e.library, "libA");
}

#[test]
fn segments_after_the_second_are_ignored() {
    let e = parse_identifier("cat/use.rs/deeper/still::f::l", 7).unwrap();
    assert_eq!(e.category, "cat");
    assert_eq!(e.usecase, "use");
}

#[test]
fn only_a_trailing_extension_is_stripped() {
    assert_eq!(parse_identifier("c/plain::f::l", 0).unwrap().usecase, "plain");
    assert_eq!(parse_identifier("c/a.rs.b::f::l", 0).unwrap().usecase, "a.rs.b");
    assert_eq!(parse_identifier("c/a.rs.rs::f::l", 0).unwrap().usecase, "a.rs");
    assert_eq!(parse_identifier("c/.rs::f::l", 0).unwrap().usecase, "");
    assert_eq!(parse_identifier("c/rs::f::l", 0).unwrap().usecase, "rs");
    assert_eq!(parse_identifier("c/::f::l", 0).unwrap().usecase, "");
}

#[test]
fn empty_parts_are_kept() {
    let e = parse_identifier("::::", 0).unwrap();
    assert_eq!(e.category, "");
    assert_eq!(e.usecase, "default");
    assert_eq!(e.test_function, "");
    assert_eq!(e.library, "");
}

#[test]
fn separators_are_matched_from_the_left() {
    let e = parse_identifier("a:::b::c", 0).unwrap();
    assert_eq!(e.category, "a");
    assert_eq!(e.test_function, ":b");
    assert_eq!(e.library, "c");
}

#[test]
fn names_outside_ascii_are_decoded() {
    let e = parse_identifier("catégorie/usé.rs::fonction_μ::libé", 0).unwrap();
    assert_eq!(e.category, "catégorie");
    assert_eq!(e.usecase, "usé");
    assert_eq!(e.test_function, "fonction_μ");
    assert_eq!(e.library, "libé");
}

#[test]
fn results_keep_their_order() {
    let results = vec![
        result("b/u.rs::f::l", 1),
        result("bad", 2),
        result("a/u.rs::f::l", 3),
        result("also::bad", 4),
        result("c::f::l", 5),
    ];
    let entries = parse_benchmark_results(&results);
    let seen: Vec<(String, u64)> =
        entries.iter().map(|e| (e.category.clone(), e.elapsed_picos)).collect();
    assert_eq!(
        seen,
        vec![("b".to_string(), 1), ("a".to_string(), 3), ("c".to_string(), 5)]
    );
}

#[test]
fn no_results_give_no_entries() {
    assert!(parse_benchmark_results(&[]).is_empty());
}

#[test]
fn characters_come_out_in_order() {
    assert_eq!(chars_of("aμb"), vec!['a', 'μ', 'b']);
    assert!(chars_of("").is_empty());
}

#[test]
fn names_are_ordered_by_code_point() {
    assert_eq!(compare_names("libA", "libB"), NameOrder::Before);
    assert_eq!(compare_names("libB", "libA"), NameOrder::After);
    assert_eq!(compare_names("lib", "lib"), NameOrder::Same);
    assert_eq!(compare_names("lib", "libA"), NameOrder::Before);
    assert_eq!(compare_names("libA", "lib"), NameOrder::After);
    assert_eq!(compare_names("", ""), NameOrder::Same);
    assert_eq!(compare_names("", "a"), NameOrder::Before);
    assert_eq!(compare_names("Z", "a"), NameOrder::Before);
    assert_eq!(compare_names("z", "μ"), NameOrder::Before);
}

#[test]
fn name_order_agrees_with_string_order() {
    let names = ["", "a", "ab", "b", "B", "é", "z", "μ", "a/b", "a b"];
    for x in names {
        for y in names {
            let expected = if x < y {
                NameOrder::Before
            } else if x == y {
                NameOrder::Same
            } else {
                NameOrder::After
            };
            assert_eq!(compare_names(x, y), expected);
        }
    }
}

#[test]
fn search_finds_the_first_occurrence() {
    let s = chars_of("a::b::c");
    let sep = chars_of("::");
    assert_eq!(find_in(&s, &sep, 0), Some(1));
    assert_eq!(find_in(&s, &sep, 1), Some(1));
    assert_eq!(find_in(&s, &sep, 2), Some(4));
    assert_eq!(find_in(&s, &sep, 5), None);
    assert_eq!(find_in(&s, &sep, 100), None);
    assert_eq!(find_in(&sep, &s, 0), None);
    assert!(matches_at(&s, &sep, 4));
    assert!(!matches_at(&s, &sep, 5));
    assert!(!matches_at(&s, &sep, 6));
}
