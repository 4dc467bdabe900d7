//! The issue linker: rewrite a document's metadata table in place to
//! add or overwrite the tracking-issue row. The table's recorded source
//! span is replaced; every character outside it is untouched.

use vstd::prelude::*;
use crate::errors::GoalError;
use crate::issue::{IssueId, IssueIdView, render_issue, parse_issue, lemma_issue_round_trip};
use crate::metadata::clone_table;
use crate::model::{Table, TableView, Span, find_row};
use crate::document::GoalDocument;

verus! {

/// `rows` with the first row keyed `key` given the value `value`, or
/// with a new `[key, value]` row appended when no row has that key.
pub open spec fn upsert_rows(
    rows: Seq<Seq<Seq<char>>>,
    key: Seq<char>,
    value: Seq<char>,
) -> Seq<Seq<Seq<char>>>
    decreases rows.len(),
{
    if rows.len() == 0 {
        seq![seq![key, value]]
    } else if rows[0].len() > 0 && rows[0][0] == key {
        seq![rows[0].update(1, value)] + rows.drop_first()
    } else {
        seq![rows[0]] + upsert_rows(rows.drop_first(), key, value)
    }
}

/// In the updated rows, the updated key maps to the new value, and for
/// a valid issue reference the rendered value parses back to it.
pub proof fn lemma_upsert_find(rows: Seq<Seq<Seq<char>>>, key: Seq<char>, value: Seq<char>)
    requires
        forall|i: int| 0 <= i < rows.len() ==> (#[trigger] rows[i]).len() == 2,
    ensures
        find_row(upsert_rows(rows, key, value), key) matches Some(row) && row.len() >= 2
            && row[0] == key && row[1] == value,
    decreases rows.len(),
{
    let out = upsert_rows(rows, key, value);
    if rows.len() == 0 {
        assert(out[0] == seq![key, value]);
    } else if rows[0].len() > 0 && rows[0][0] == key {
        assert(out[0] == rows[0].update(1, value));
        assert(rows[0].update(1, value).len() == rows[0].len());
        assert(out[0][0] == key);
    } else {
        let t = rows.drop_first();
        assert(forall|i: int| 0 <= i < t.len() ==> (#[trigger] t[i]).len() == 2);
        lemma_upsert_find(t, key, value);
        assert(out[0] == rows[0]);
        assert(out.drop_first() =~= upsert_rows(rows.drop_first(), key, value));
    }
}

/// Linking a valid issue reference and reading the updated table back
/// yields the same reference: the tracking-issue row of the updated
/// rows holds the rendered reference, and parsing it returns the
/// reference.
pub proof fn lemma_link_issue_round_trip(rows: Seq<Seq<Seq<char>>>, id: IssueIdView)
    requires
        id.valid(),
        forall|i: int| 0 <= i < rows.len() ==> (#[trigger] rows[i]).len() == 2,
    ensures
        ({
            let rows2 = upsert_rows(rows, "Tracking issue"@, render_issue(id));
            find_row(rows2, "Tracking issue"@) matches Some(row) && row[1] == render_issue(id)
                && parse_issue(row[1]) == Some(id)
        }),
{
    lemma_upsert_find(rows, "Tracking issue"@, render_issue(id));
    lemma_issue_round_trip(id);
}

impl Table {
    /// Add a `[key, value]` row, or overwrite the value of the first
    /// existing row keyed `key`.
    pub fn add_key_value_row(&mut self, key: &str, value: &str)
        requires
            old(self)@.wf(),
            old(self)@.header.len() == 2,
        ensures
            final(self)@.header == old(self)@.header,
            final(self)@.span == old(self)@.span,
            final(self)@.rows == upsert_rows(old(self)@.rows, key@, value@),
            final(self)@.wf(),
    {
        let new_rows = upsert_rows_exec(&self.rows, 0, key, value);
        proof {
            assert(self@.rows.skip(0) =~= self@.rows);
            lemma_upsert_len(self@.rows, key@, value@);
        }
        self.rows = new_rows;
    }
}

proof fn lemma_upsert_len(rows: Seq<Seq<Seq<char>>>, key: Seq<char>, value: Seq<char>)
    requires
        forall|i: int| 0 <= i < rows.len() ==> (#[trigger] rows[i]).len() == 2,
    ensures
        forall|i: int| 0 <= i < upsert_rows(rows, key, value).len()
            ==> (#[trigger] upsert_rows(rows, key, value)[i]).len() == 2,
    decreases rows.len(),
{
    let out = upsert_rows(rows, key, value);
    if rows.len() == 0 {
        assert(out[0].len() == 2);
    } else if rows[0].len() > 0 && rows[0][0] == key {
        assert(out[0].len() == 2);
        assert(forall|i: int| 1 <= i < out.len() ==> out[i] == rows[i]);
    } else {
        lemma_upsert_len(rows.drop_first(), key, value);
        let rest = upsert_rows(rows.drop_first(), key, value);
        assert(forall|i: int| 1 <= i < out.len() ==> out[i] == rest[i - 1]);
        assert(out[0].len() == 2);
    }
}

fn upsert_rows_exec(rows: &Vec<Vec<String>>, from: usize, key: &str, value: &str) -> (r: Vec<
    Vec<String>,
>)
    requires
        from <= rows.len(),
        forall|i: int| 0 <= i < rows.deep_view().len()
            ==> (#[trigger] rows.deep_view()[i]).len() == 2,
    ensures
        r.deep_view() == upsert_rows(rows.deep_view().skip(from as int), key@, value@),
    decreases rows.len() - from,
{
    let ghost deep = rows.deep_view();
    if from == rows.len() {
        proof {
            assert(deep.skip(from as int) =~= Seq::<Seq<Seq<char>>>::empty());
        }
        let mut row: Vec<String> = Vec::new();
        row.push(key.to_owned());
        row.push(value.to_owned());
        let ghost rv = row.deep_view();
        let mut out: Vec<Vec<String>> = Vec::new();
        out.push(row);
        proof {
            assert(rv =~= seq![key@, value@]);
            assert(out.deep_view() =~= seq![seq![key@, value@]]);
        }
        return out;
    }
    proof {
        assert(deep.skip(from as int)[0] == deep[from as int]);
        assert(deep.skip(from as int).drop_first() =~= deep.skip(from as int + 1));
        assert(deep[from as int] == rows@[from as int].deep_view());
        assert(deep[from as int].len() == 2);
        assert(deep[from as int][0] == rows@[from as int]@[0]@);
    }
    let row = &rows[from];
    if crate::text::str_eq(row[0].as_str(), key) {
        let mut new_row: Vec<String> = Vec::new();
        new_row.push(row[0].clone());
        new_row.push(value.to_owned());
        let ghost nv = new_row.deep_view();
        let mut out: Vec<Vec<String>> = Vec::new();
        out.push(new_row);
        let mut i: usize = from + 1;
        while i < rows.len()
            invariant
                from + 1 <= i <= rows.len(),
                deep == rows.deep_view(),
                out.len() == i - from,
                out.deep_view()[0] == nv,
                forall|w: int| 1 <= w < i - from ==> out.deep_view()[w] == deep[from + w],
            decreases rows.len() - i,
        {
            proof {
                assert(deep[i as int] == rows@[i as int].deep_view());
            }
            let ghost prev = out.deep_view();
            out.push(crate::model::clone_cells(&rows[i]));
            proof {
                assert(out.deep_view().len() == prev.len() + 1);
                assert(forall|w: int| 0 <= w < prev.len() ==> out.deep_view()[w] == prev[w]);
                assert(out.deep_view()[prev.len() as int] == deep[i as int]);
                assert forall|w: int| 1 <= w < (i + 1) - from implies out.deep_view()[w]
                    == deep[from + w] by {
                    if w < i - from {
                        assert(out.deep_view()[w] == prev[w]);
                        assert(prev[w] == deep[from + w]);
                    } else {
                        assert(w == i - from);
                        assert(out.deep_view()[w] == deep[i as int]);
                    }
                }
            }
            i = i + 1;
        }
        proof {
            assert(nv =~= deep[from as int].update(1, value@));
            let target = upsert_rows(deep.skip(from as int), key@, value@);
            assert(target == seq![deep.skip(from as int)[0].update(1, value@)] + deep.skip(
                from as int).drop_first());
            assert(deep.skip(from as int)[0] == deep[from as int]);
            assert(target.len() == deep.len() - from);
            assert(out.deep_view().len() == deep.len() - from);
            assert(target[0] == nv);
            assert(forall|w: int| 1 <= w < target.len() ==> target[w] == deep.skip(
                from as int).drop_first()[w - 1]);
            assert(forall|w: int| 1 <= w < target.len() ==> #[trigger] deep.skip(
                from as int).drop_first()[w - 1] == deep[from + w]);
            assert(out.deep_view() =~= target);
        }
        out
    } else {
        let rest = upsert_rows_exec(rows, from + 1, key, value);
        let mut out: Vec<Vec<String>> = Vec::new();
        let ghost hv = deep[from as int];
        out.push(crate::model::clone_cells(&rows[from]));
        let mut rest2 = rest;
        let ghost rv = rest2.deep_view();
        out.append(&mut rest2);
        proof {
            assert(out.deep_view().len() == 1 + rv.len());
            assert(out.deep_view()[0] == hv);
            assert(forall|w: int| 0 <= w < rv.len() ==> out.deep_view()[1 + w] == rv[w]);
            assert(out.deep_view() =~= seq![hv] + rv);
        }
        out
    }
}

/// The markdown text of a table's cells after the leading `|`.
pub open spec fn cells_text(cells: Seq<Seq<char>>) -> Seq<char>
    decreases cells.len(),
{
    if cells.len() == 0 {
        Seq::empty()
    } else {
        " "@ + cells[0] + " |"@ + cells_text(cells.drop_first())
    }
}

/// The markdown text of one table row.
pub open spec fn row_text(row: Seq<Seq<char>>) -> Seq<char> {
    "|"@ + cells_text(row) + "\n"@
}

/// The markdown text of a list of rows.
pub open spec fn rows_text(rows: Seq<Seq<Seq<char>>>) -> Seq<char>
    decreases rows.len(),
{
    if rows.len() == 0 {
        Seq::empty()
    } else {
        row_text(rows[0]) + rows_text(rows.drop_first())
    }
}

/// The markdown text of a whole table: header row, then data rows.
pub open spec fn table_text(t: TableView) -> Seq<char> {
    row_text(t.header) + rows_text(t.rows)
}

fn render_cells(row: &Vec<String>, from: usize) -> (r: String)
    requires
        from <= row.len(),
    ensures
        r@ == cells_text(row.deep_view().skip(from as int)),
    decreases row.len() - from,
{
    let ghost deep = row.deep_view();
    if from == row.len() {
        proof {
            assert(deep.skip(from as int) =~= Seq::<Seq<char>>::empty());
        }
        return String::new();
    }
    proof {
        assert(deep.skip(from as int)[0] == deep[from as int]);
        assert(deep.skip(from as int).drop_first() =~= deep.skip(from as int + 1));
        assert(deep[from as int] == row@[from as int]@);
    }
    let mut out = String::new();
    out.append(" ");
    out.append(row[from].as_str());
    out.append(" |");
    let rest = render_cells(row, from + 1);
    out.append(rest.as_str());
    proof {
        assert(out@ =~= cells_text(deep.skip(from as int)));
    }
    out
}

fn render_row(row: &Vec<String>) -> (r: String)
    ensures
        r@ == row_text(row.deep_view()),
{
    let mut out = String::new();
    out.append("|");
    let cells = render_cells(row, 0);
    proof {
        assert(row.deep_view().skip(0) =~= row.deep_view());
    }
    out.append(cells.as_str());
    out.append("\n");
    proof {
        assert(out@ =~= row_text(row.deep_view()));
    }
    out
}

/// Render a table back to markdown text.
pub fn render_table(table: &Table) -> (r: String)
    ensures
        r@ == table_text(table@),
{
    let mut out = render_row(&table.header);
    let mut i: usize = 0;
    while i < table.rows.len()
        invariant
            0 <= i <= table.rows.len(),
            out@ =~= row_text(table@.header) + rows_text(table@.rows.take(i as int)),
        decreases table.rows.len() - i,
    {
        proof {
            assert(table@.rows[i as int] == table.rows@[i as int].deep_view());
        }
        let row = render_row(&table.rows[i]);
        out.append(row.as_str());
        proof {
            lemma_rows_text_snoc(table@.rows, i as int);
        }
        i = i + 1;
    }
    proof {
        assert(table@.rows.take(table@.rows.len() as int) =~= table@.rows);
        assert(table@.rows.len() == table.rows.len());
    }
    out
}

proof fn lemma_rows_text_snoc(rows: Seq<Seq<Seq<char>>>, i: int)
    requires
        0 <= i < rows.len(),
    ensures
        rows_text(rows.take(i + 1)) == rows_text(rows.take(i)) + row_text(rows[i]),
    decreases i,
{
    if i == 0 {
        assert(rows.take(0) =~= Seq::<Seq<Seq<char>>>::empty());
        assert(rows.take(1)[0] == rows[0]);
        assert(rows.take(1).drop_first() =~= Seq::<Seq<Seq<char>>>::empty());
        assert(rows_text(rows.take(1)) =~= rows_text(rows.take(0)) + row_text(rows[0]));
    } else {
        let t = rows.drop_first();
        lemma_rows_text_snoc(t, i - 1);
        assert(rows.take(i + 1)[0] == rows[0]);
        assert(rows.take(i + 1).drop_first() =~= t.take(i));
        assert(rows.take(i)[0] == rows[0]);
        assert(rows.take(i).drop_first() =~= t.take(i - 1));
        assert(t[i - 1] == rows[i]);
        assert(rows_text(rows.take(i + 1)) =~= rows_text(rows.take(i)) + row_text(rows[i]));
    }
}

/// Replace the characters of `span` inside `content` with
/// `replacement`; everything outside the span is unchanged.
pub fn splice_span(content: &str, span: Span, replacement: &str) -> (r: String)
    requires
        span.start <= span.end <= content@.len(),
    ensures
        r@ == content@.subrange(0, span.start as int) + replacement@ + content@.subrange(
            span.end as int, content@.len() as int),
{
    let len = content.unicode_len();
    let prefix = content.substring_char(0, span.start);
    let suffix = content.substring_char(span.end, len);
    let mut out = prefix.to_owned();
    out.append(replacement);
    out.append(suffix);
    out
}

impl GoalDocument {
    /// The document's source text with the metadata table rewritten to
    /// carry the given tracking issue: the table's span is replaced by
    /// the updated table's text, and every character outside the span
    /// is identical before and after.
    pub fn link_issue(&self, issue: &IssueId, content: &str) -> (r: String)
        requires
            self@.metadata.table.wf(),
            self@.metadata.table.header.len() == 2,
            self@.metadata.table.span.start <= self@.metadata.table.span.end
                <= content@.len(),
        ensures
            ({
                let table = self@.metadata.table;
                let updated = TableView {
                    header: table.header,
                    rows: upsert_rows(table.rows, "Tracking issue"@, render_issue(issue@)),
                    span: table.span,
                };
                r@ == content@.subrange(0, table.span.start as int) + table_text(updated)
                    + content@.subrange(table.span.end as int, content@.len() as int)
            }),
    {
        let mut table = clone_table(&self.metadata.table);
        let rendered = issue.render();
        table.add_key_value_row("Tracking issue", rendered.as_str());
        let text = render_table(&table);
        splice_span(content, table.span, text.as_str())
    }
}

} // verus!
