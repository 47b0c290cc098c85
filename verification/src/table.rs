//! The data of a report: timed entries, and the tables they are grouped into.

use crate::axis::sorted;
use vstd::prelude::*;

verus! {

/// One timed benchmark, keyed by category, usecase, test function and
/// library. The time is a whole number of picoseconds.
#[derive(Clone, Debug)]
pub struct BenchmarkEntry {
    pub category: String,
    pub usecase: String,
    pub test_function: String,
    pub library: String,
    pub elapsed_picos: u64,
}

/// The mathematical value of a `BenchmarkEntry`.
pub struct EntryView {
    pub category: Seq<char>,
    pub usecase: Seq<char>,
    pub test_function: Seq<char>,
    pub library: Seq<char>,
    pub elapsed_picos: u64,
}

impl View for BenchmarkEntry {
    type V = EntryView;

    open spec fn view(&self) -> EntryView {
        EntryView {
            category: self.category@,
            usecase: self.usecase@,
            test_function: self.test_function@,
            library: self.library@,
            elapsed_picos: self.elapsed_picos,
        }
    }
}

/// The values of a sequence of entries.
pub open spec fn entry_views(es: Seq<BenchmarkEntry>) -> Seq<EntryView> {
    es.map_values(|e: BenchmarkEntry| e@)
}

/// The values of a sequence of names.
pub open spec fn names(v: Seq<String>) -> Seq<Seq<char>> {
    v.map_values(|s: String| s@)
}

/// The comparison table of one usecase: a row for each test function, a
/// column for each library, and in each cell the recorded time, if any.
#[derive(Debug)]
pub struct UsecaseTable {
    pub usecase: String,
    pub libraries: Vec<String>,
    pub test_functions: Vec<String>,
    /// `cells[r][c]` belongs to `test_functions[r]` and `libraries[c]`.
    pub cells: Vec<Vec<Option<u64>>>,
}

/// The mathematical value of a `UsecaseTable`.
pub struct TableView {
    pub usecase: Seq<char>,
    pub libraries: Seq<Seq<char>>,
    pub test_functions: Seq<Seq<char>>,
    pub cells: Seq<Seq<Option<u64>>>,
}

impl View for UsecaseTable {
    type V = TableView;

    open spec fn view(&self) -> TableView {
        TableView {
            usecase: self.usecase@,
            libraries: names(self.libraries@),
            test_functions: names(self.test_functions@),
            cells: self.cells@.map_values(|row: Vec<Option<u64>>| row@),
        }
    }
}

impl TableView {
    /// Both axes are in strictly increasing order, and the grid has a row for
    /// each test function and in each row a cell for each library.
    pub open spec fn well_formed(self) -> bool {
        &&& sorted(self.libraries)
        &&& sorted(self.test_functions)
        &&& self.cells.len() == self.test_functions.len()
        &&& forall|r: int|
            0 <= r < self.cells.len() ==> (#[trigger] self.cells[r]).len() == self.libraries.len()
    }

    /// The time in row `r`, column `c`; a cell outside the grid holds none.
    pub open spec fn cell(self, r: int, c: int) -> Option<u64> {
        if 0 <= r < self.cells.len() && 0 <= c < self.cells[r].len() {
            self.cells[r][c]
        } else {
            None
        }
    }
}

impl UsecaseTable {
    /// The time in row `r`, column `c`, if the grid has one there.
    pub fn cell(&self, r: usize, c: usize) -> (t: Option<u64>)
        ensures
            t == self@.cell(r as int, c as int),
    {
        if r < self.cells.len() && c < self.cells[r].len() {
            self.cells[r][c]
        } else {
            None
        }
    }
}

/// The tables of one category.
#[derive(Debug)]
pub struct CategorySection {
    pub category: String,
    pub tables: Vec<UsecaseTable>,
}

/// The mathematical value of a `CategorySection`.
pub struct SectionView {
    pub category: Seq<char>,
    pub tables: Seq<TableView>,
}

impl View for CategorySection {
    type V = SectionView;

    open spec fn view(&self) -> SectionView {
        SectionView {
            category: self.category@,
            tables: self.tables@.map_values(|t: UsecaseTable| t@),
        }
    }
}

/// The usecases of a sequence of tables.
pub open spec fn table_names(ts: Seq<TableView>) -> Seq<Seq<char>> {
    ts.map_values(|t: TableView| t.usecase)
}

/// The categories of a sequence of sections.
pub open spec fn section_names(ss: Seq<SectionView>) -> Seq<Seq<char>> {
    ss.map_values(|s: SectionView| s.category)
}

impl SectionView {
    /// The tables are in strictly increasing order of usecase, and each is
    /// well formed.
    pub open spec fn well_formed(self) -> bool {
        &&& sorted(table_names(self.tables))
        &&& forall|j: int| 0 <= j < self.tables.len() ==> (#[trigger] self.tables[j]).well_formed()
    }
}

/// The values of a sequence of sections.
pub open spec fn section_views(ss: Seq<CategorySection>) -> Seq<SectionView> {
    ss.map_values(|s: CategorySection| s@)
}

} // verus!
