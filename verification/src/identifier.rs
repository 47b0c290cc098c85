//! Decoding of benchmark identifiers of the shape
//! `<category>/<usecase>[.rs]::<test function>::<library>`.

use crate::api_client::{result_views, FetchRunBenchmarkResult, ResultView};
use crate::table::{entry_views, BenchmarkEntry, EntryView};
use crate::text::{chars_of, find, find_in, lemma_find_first, matches_at, occurs_at};
use vstd::prelude::*;

verus! {

/// What parts the identifier from its path, and the parts from each other.
pub open spec fn part_separator() -> Seq<char> {
    "::"@
}

/// What parts the segments of the path.
pub open spec fn path_separator() -> Seq<char> {
    "/"@
}

/// The file extension that is dropped from a usecase.
pub open spec fn source_extension() -> Seq<char> {
    ".rs"@
}

/// The usecase of a path that has one segment only.
pub open spec fn default_usecase() -> Seq<char> {
    "default"@
}

/// Where the piece of `s` that starts at `from` ends: at the next `sep`, or
/// at the end of `s`.
pub open spec fn piece_end(s: Seq<char>, sep: Seq<char>, from: int) -> int {
    match find(s, sep, from) {
        Some(i) => i,
        None => s.len() as int,
    }
}

/// `name` without the source extension, if it ends in it.
pub open spec fn strip_extension(name: Seq<char>) -> Seq<char> {
    let ext = source_extension();
    if name.len() >= ext.len() && name.subrange(name.len() - ext.len(), name.len() as int) == ext {
        name.subrange(0, name.len() - ext.len())
    } else {
        name
    }
}

/// The first segment of the path.
pub open spec fn category_of(path: Seq<char>) -> Seq<char> {
    path.subrange(0, piece_end(path, path_separator(), 0))
}

/// The second segment of the path without its extension, or the default
/// where the path has no second segment.
pub open spec fn usecase_of(path: Seq<char>) -> Seq<char> {
    let sep = path_separator();
    match find(path, sep, 0) {
        None => default_usecase(),
        Some(p) => strip_extension(
            path.subrange(p + sep.len(), piece_end(path, sep, p + sep.len())),
        ),
    }
}

/// The entry that an identifier and a time give: none where the identifier
/// has fewer than three parts; parts after the third are left aside.
pub open spec fn parse_identifier_spec(id: Seq<char>, time_picos: u64) -> Option<EntryView> {
    let sep = part_separator();
    match find(id, sep, 0) {
        None => None,
        Some(a) => match find(id, sep, a + sep.len()) {
            None => None,
            Some(b) => {
                let path = id.subrange(0, a);
                Some(
                    EntryView {
                        category: category_of(path),
                        usecase: usecase_of(path),
                        test_function: id.subrange(a + sep.len(), b),
                        library: id.subrange(b + sep.len(), piece_end(id, sep, b + sep.len())),
                        elapsed_picos: time_picos,
                    },
                )
            },
        },
    }
}

/// The entries of the results that have a well-formed identifier, in the
/// order of the results.
pub open spec fn parsed(rs: Seq<ResultView>) -> Seq<EntryView>
    decreases rs.len(),
{
    if rs.len() == 0 {
        seq![]
    } else {
        let before = parsed(rs.drop_last());
        match parse_identifier_spec(rs.last().uri, rs.last().time_picos) {
            Some(e) => before.push(e),
            None => before,
        }
    }
}

fn piece_end_in(s: &Vec<char>, sep: &Vec<char>, from: usize) -> (r: usize)
    requires
        from <= s.len(),
    ensures
        r == piece_end(s@, sep@, from as int),
        from <= r <= s.len(),
{
    match find_in(s, sep, from) {
        Some(i) => i,
        None => s.len(),
    }
}

fn without_extension(name: &str) -> (r: String)
    ensures
        r@ == strip_extension(name@),
{
    let chars = chars_of(name);
    let ext = chars_of(".rs");
    if chars.len() >= ext.len() && matches_at(&chars, &ext, chars.len() - ext.len()) {
        name.substring_char(0, chars.len() - ext.len()).to_owned()
    } else {
        name.to_owned()
    }
}

fn usecase_in(path: &str, chars: &Vec<char>, sep: &Vec<char>) -> (r: String)
    requires
        chars@ == path@,
        sep@ == path_separator(),
    ensures
        r@ == usecase_of(path@),
{
    match find_in(chars, sep, 0) {
        None => "default".to_owned(),
        Some(p) => {
            let start = p + sep.len();
            let end = piece_end_in(chars, sep, start);
            without_extension(path.substring_char(start, end))
        },
    }
}

/// Decodes one identifier; the time is carried into the entry.
pub fn parse_identifier(id: &str, time_picos: u64) -> (r: Option<BenchmarkEntry>)
    ensures
        match r {
            Some(e) => parse_identifier_spec(id@, time_picos) == Some(e@),
            None => parse_identifier_spec(id@, time_picos) is None,
        },
{
    let chars = chars_of(id);
    let sep = chars_of("::");
    let a = match find_in(&chars, &sep, 0) {
        Some(a) => a,
        None => {
            return None;
        },
    };
    let b = match find_in(&chars, &sep, a + sep.len()) {
        Some(b) => b,
        None => {
            return None;
        },
    };
    let c = piece_end_in(&chars, &sep, b + sep.len());
    let path = id.substring_char(0, a);
    let path_chars = chars_of(path);
    let slash = chars_of("/");
    let category_end = piece_end_in(&path_chars, &slash, 0);
    Some(
        BenchmarkEntry {
            category: path.substring_char(0, category_end).to_owned(),
            usecase: usecase_in(path, &path_chars, &slash),
            test_function: id.substring_char(a + sep.len(), b).to_owned(),
            library: id.substring_char(b + sep.len(), c).to_owned(),
            elapsed_picos: time_picos,
        },
    )
}

/// Decodes the identifiers of the results. A result whose identifier has
/// fewer than three parts is left out; the others keep their order.
pub fn parse_benchmark_results(results: &[FetchRunBenchmarkResult]) -> (entries: Vec<
    BenchmarkEntry,
>)
    ensures
        entry_views(entries@) == parsed(result_views(results@)),
{
    let ghost rs = result_views(results@);
    let mut entries: Vec<BenchmarkEntry> = Vec::new();
    let mut i: usize = 0;
    while i < results.len()
        invariant
            i <= results.len(),
            rs == result_views(results@),
            entry_views(entries@) == parsed(rs.take(i as int)),
        decreases results.len() - i,
    {
        proof {
            assert(rs.take(i + 1).drop_last() =~= rs.take(i as int));
            assert(rs.take(i + 1).last() == results[i as int]@);
        }
        let ghost before = entry_views(entries@);
        match parse_identifier(results[i].benchmark.uri.as_str(), results[i].time_picos) {
            Some(e) => {
                entries.push(e);
                assert(entry_views(entries@) =~= before.push(e@));
            },
            None => {},
        }
        i += 1;
    }
    proof {
        assert(rs.take(i as int) =~= rs);
    }
    entries
}

/// An identifier in which `::` stands nowhere gives no entry.
pub proof fn lemma_no_separator_no_entry(id: Seq<char>, time_picos: u64)
    requires
        forall|i: int| !occurs_at(id, part_separator(), i),
    ensures
        parse_identifier_spec(id, time_picos) is None,
{
    lemma_find_first(id, part_separator(), 0);
}

/// A path without `/` is its own category, and its usecase is the default.
pub proof fn lemma_single_segment_path(path: Seq<char>)
    requires
        forall|i: int| !occurs_at(path, path_separator(), i),
    ensures
        category_of(path) == path,
        usecase_of(path) == default_usecase(),
{
    lemma_find_first(path, path_separator(), 0);
    assert(path.subrange(0, path.len() as int) =~= path);
}

/// Every entry comes from a result of its own: there are no more entries
/// than results.
pub proof fn lemma_parsed_len(rs: Seq<ResultView>)
    ensures
        parsed(rs).len() <= rs.len(),
    decreases rs.len(),
{
    if rs.len() > 0 {
        lemma_parsed_len(rs.drop_last());
    }
}

} // verus!
