//! The document model the extractors consume: an ordered list of titled
//! sections, each carrying free text and zero or more tables. A table
//! records the span of source characters it was read from, so the issue
//! linker can rewrite it in place.

use vstd::prelude::*;
use crate::errors::GoalError;
use crate::text::str_eq;

verus! {

/// A half-open range of character positions in the source document.
#[derive(Debug, Clone, Copy, PartialEq, Eq, Structural)]
pub struct Span {
    pub start: usize,
    pub end: usize,
}

/// One table: a header row and data rows, all cells as plain text.
#[derive(Debug, Clone)]
pub struct Table {
    pub header: Vec<String>,
    pub rows: Vec<Vec<String>>,
    /// Where in the source document this table was read from.
    pub span: Span,
}

/// The mathematical content of a `Table`.
pub ghost struct TableView {
    pub header: Seq<Seq<char>>,
    pub rows: Seq<Seq<Seq<char>>>,
    pub span: Span,
}

impl View for Table {
    type V = TableView;

    open spec fn view(&self) -> TableView {
        TableView {
            header: self.header.deep_view(),
            rows: self.rows.deep_view(),
            span: self.span,
        }
    }
}

impl DeepView for Table {
    type V = TableView;

    open spec fn deep_view(&self) -> TableView {
        self.view()
    }
}

impl TableView {
    /// Every row is as wide as the header, and the header is non-empty.
    pub open spec fn wf(self) -> bool {
        self.header.len() > 0
        && forall|i: int| 0 <= i < self.rows.len() ==> (#[trigger] self.rows[i]).len() == self.header.len()
    }
}

/// One titled section: nesting level, free text, and its tables.
#[derive(Debug, Clone)]
pub struct Section {
    pub title: String,
    /// Nesting depth; a subsection has a strictly greater level than its parent.
    pub level: usize,
    pub text: String,
    pub tables: Vec<Table>,
}

/// The mathematical content of a `Section`.
pub ghost struct SectionView {
    pub title: Seq<char>,
    pub level: nat,
    pub text: Seq<char>,
    pub tables: Seq<TableView>,
}

impl View for Section {
    type V = SectionView;

    open spec fn view(&self) -> SectionView {
        SectionView {
            title: self.title.deep_view(),
            level: self.level as nat,
            text: self.text.deep_view(),
            tables: self.tables.deep_view(),
        }
    }
}

impl DeepView for Section {
    type V = SectionView;

    open spec fn deep_view(&self) -> SectionView {
        self.view()
    }
}

impl SectionView {
    /// All tables of the section are well-formed.
    pub open spec fn wf(self) -> bool {
        forall|i: int| 0 <= i < self.tables.len() ==> (#[trigger] self.tables[i]).wf()
    }
}

/// All sections of a document are well-formed.
pub open spec fn sections_wf(sections: Seq<SectionView>) -> bool {
    forall|i: int| 0 <= i < sections.len() ==> (#[trigger] sections[i]).wf()
}

/// The first row whose key cell (column 0) equals `key`; `None` if no
/// row has that key.
pub open spec fn find_row(rows: Seq<Seq<Seq<char>>>, key: Seq<char>) -> Option<Seq<Seq<char>>>
    decreases rows.len(),
{
    if rows.len() == 0 {
        None
    } else if rows[0].len() > 0 && rows[0][0] == key {
        Some(rows[0])
    } else {
        find_row(rows.drop_first(), key)
    }
}

impl Table {
    /// Index of the first row whose key cell equals `key`, together with
    /// the characterization of `find_row` on this table's rows.
    pub fn find_row_index(&self, key: &str) -> (r: Option<usize>)
        requires
            self@.wf(),
        ensures
            match r {
                Some(i) => i < self.rows.len()
                    && find_row(self@.rows, key@) == Some(self@.rows[i as int]),
                None => find_row(self@.rows, key@) is None,
            },
    {
        proof {
            assert(self@.rows.skip(0) =~= self@.rows);
        }
        self.find_row_from(key, 0)
    }

    fn find_row_from(&self, key: &str, from: usize) -> (r: Option<usize>)
        requires
            self@.wf(),
            from <= self.rows.len(),
        ensures
            match r {
                Some(i) => from <= i < self.rows.len()
                    && find_row(self@.rows.skip(from as int), key@) == Some(self@.rows[i as int]),
                None => find_row(self@.rows.skip(from as int), key@) is None,
            },
        decreases self.rows.len() - from,
    {
        proof {
            assert(self@.rows.len() == self.rows.len());
        }
        if from == self.rows.len() {
            proof {
                assert(self@.rows.skip(from as int) =~= Seq::<Seq<Seq<char>>>::empty());
            }
            return None;
        }
        let row = &self.rows[from];
        proof {
            assert(self@.rows[from as int] == row.deep_view());
            assert(self@.rows.skip(from as int)[0] == self@.rows[from as int]);
            assert(self@.rows.skip(from as int).drop_first() =~= self@.rows.skip(from as int + 1));
        }
        if row.len() > 0 && str_eq(row[0].as_str(), key) {
            proof {
                assert(row.deep_view()[0] == row@[0]@);
            }
            Some(from)
        } else {
            proof {
                if row.len() > 0 {
                    assert(row.deep_view()[0] == row@[0]@);
                } else {
                    assert(row.deep_view().len() == 0);
                }
            }
            self.find_row_from(key, from + 1)
        }
    }
}

/// Whether `table`'s header equals `expected`, cell for cell.
pub open spec fn headers_match(table: TableView, expected: Seq<Seq<char>>) -> bool {
    table.header == expected
}

/// Cell-for-cell equality of a list of owned cells and a list of
/// borrowed cells.
pub fn cells_eq(a: &Vec<String>, b: &[&str]) -> (r: bool)
    ensures
        r == (a.deep_view() == b.deep_view()),
{
    if a.len() != b.len() {
        proof {
            assert(a.deep_view().len() == a.len());
            assert(b.deep_view().len() == b.len());
        }
        return false;
    }
    let mut i: usize = 0;
    while i < a.len()
        invariant
            0 <= i <= a.len(),
            a.len() == b.len(),
            forall|k: int| 0 <= k < i ==> a.deep_view()[k] == b.deep_view()[k],
        decreases a.len() - i,
    {
        proof {
            assert(a.deep_view()[i as int] == a@[i as int]@);
            assert(b.deep_view()[i as int] == b@[i as int]@);
        }
        if !str_eq(a[i].as_str(), b[i]) {
            return false;
        }
        i = i + 1;
    }
    proof {
        assert(a.deep_view() =~= b.deep_view());
    }
    true
}

/// Copy a list of cells into owned strings.
pub fn owned_cells(cells: &[&str]) -> (r: Vec<String>)
    ensures
        r.deep_view() == cells.deep_view(),
{
    let mut out: Vec<String> = Vec::new();
    let mut j: usize = 0;
    while j < cells.len()
        invariant
            0 <= j <= cells.len(),
            out.len() == j,
            out.deep_view() =~= cells.deep_view().take(j as int),
        decreases cells.len() - j,
    {
        proof {
            assert(cells.deep_view()[j as int] == cells@[j as int]@);
        }
        let ghost prev = out.deep_view();
        out.push(cells[j].to_owned());
        proof {
            assert(out.deep_view().len() == j + 1);
            assert(forall|k: int| 0 <= k < j ==> out.deep_view()[k] == prev[k]);
            assert(out.deep_view()[j as int] == out@[j as int]@);
            assert(out.deep_view() =~= cells.deep_view().take(j as int + 1));
        }
        j = j + 1;
    }
    proof {
        assert(out.deep_view() =~= cells.deep_view());
    }
    out
}

/// Clone a list of owned cells.
pub fn clone_cells(cells: &Vec<String>) -> (r: Vec<String>)
    ensures
        r.deep_view() == cells.deep_view(),
{
    let mut out: Vec<String> = Vec::new();
    let mut j: usize = 0;
    while j < cells.len()
        invariant
            0 <= j <= cells.len(),
            out.len() == j,
            out.deep_view() =~= cells.deep_view().take(j as int),
        decreases cells.len() - j,
    {
        proof {
            assert(cells.deep_view()[j as int] == cells@[j as int]@);
        }
        let ghost prev = out.deep_view();
        out.push(cells[j].clone());
        proof {
            assert(out.deep_view().len() == j + 1);
            assert(forall|k: int| 0 <= k < j ==> out.deep_view()[k] == prev[k]);
            assert(out.deep_view()[j as int] == out@[j as int]@);
            assert(out.deep_view() =~= cells.deep_view().take(j as int + 1));
        }
        j = j + 1;
    }
    proof {
        assert(out.deep_view() =~= cells.deep_view());
    }
    out
}

/// Check that a table's header equals the expected cells exactly; a
/// mismatch is a schema violation naming both headers.
pub fn expect_headers(table: &Table, expected: &[&str]) -> (r: Result<(), GoalError>)
    ensures
        match r {
            Ok(()) => headers_match(table@, expected.deep_view()),
            Err(e) => !headers_match(table@, expected.deep_view())
                && (e matches GoalError::WrongTableHeader { expected: ex, found }
                    && ex.deep_view() == expected.deep_view()
                    && found.deep_view() == table@.header),
        },
{
    if cells_eq(&table.header, expected) {
        Ok(())
    } else {
        Err(GoalError::WrongTableHeader {
            expected: owned_cells(expected),
            found: clone_cells(&table.header),
        })
    }
}

} // verus!
