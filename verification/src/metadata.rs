//! The metadata extractor: locates the metadata table in a document's
//! first section, validates its required rows, and produces the typed
//! metadata record.

use vstd::prelude::*;
use crate::errors::GoalError;
use crate::issue::{IssueId, IssueIdView, parse_issue};
use crate::idents::{is_username, is_just_username};
use crate::model::{
    Section, SectionView, Table, TableView, sections_wf, headers_match, expect_headers, find_row, clone_cells,
};
use crate::plan::owner_usernames_spec;
use crate::status::{Status, AcceptanceStatus, status_of_label};
use crate::text::{trim, trim_spec};

verus! {

/// The key of the tracking-issue row.
pub const TRACKING_ISSUE_ROW: &'static str = "Tracking issue";

/// The fixed machine-rendered value the `Teams` row must hold.
pub const TEAMS_WITH_ASKS_STR: &'static str = "<!-- TEAMS WITH ASKS -->";

/// The fixed machine-rendered value the `Task owners` row must hold.
pub const TASK_OWNERS_STR: &'static str = "<!-- TASK OWNERS -->";

/// The required header of the metadata table.
pub open spec fn metadata_header() -> Seq<Seq<char>> {
    seq!["Metadata"@, ""@]
}

/// The mathematical content of a `Metadata` record.
pub ghost struct MetadataView {
    pub title: Seq<char>,
    pub short_title: Seq<char>,
    pub pocs: Seq<char>,
    pub status: Status,
    pub tracking_issue: Option<IssueIdView>,
    pub table: TableView,
}

/// The typed metadata of one goal document.
#[derive(Debug, Clone)]
pub struct Metadata {
    /// The first section's title.
    pub title: String,
    /// The `Short title` row's value, defaulting to the title.
    pub short_title: String,
    /// The point-of-contact text.
    pub pocs: String,
    pub status: Status,
    pub tracking_issue: Option<IssueId>,
    /// The metadata table itself, kept for the issue linker.
    pub table: Table,
}

/// The view of an optional issue reference.
pub open spec fn opt_issue_view(o: Option<IssueId>) -> Option<IssueIdView> {
    match o {
        Some(id) => Some(id@),
        None => None,
    }
}

impl View for Metadata {
    type V = MetadataView;

    open spec fn view(&self) -> MetadataView {
        MetadataView {
            title: self.title@,
            short_title: self.short_title@,
            pocs: self.pocs@,
            status: self.status,
            tracking_issue: opt_issue_view(self.tracking_issue),
            table: self.table@,
        }
    }
}

impl Metadata {
    /// The usernames found in the point-of-contact listing.
    pub fn owner_usernames(&self) -> (r: Vec<String>)
        ensures
            r.deep_view() == owner_usernames_spec(self@.pocs),
    {
        crate::plan::owner_usernames(self.pocs.as_str())
    }
}

/// Check that the row keyed `key` exists and holds exactly `value`.
pub fn verify_row(table: &Table, key: &str, value: &str) -> (r: Result<(), GoalError>)
    requires
        table@.wf(),
        table@.header.len() == 2,
    ensures
        match r {
            Ok(()) => find_row(table@.rows, key@) matches Some(row) && row[1] == value@,
            Err(e) => match e {
                GoalError::MissingRow { key: k } => k@ == key@
                    && find_row(table@.rows, key@) is None,
                GoalError::WrongRowValue { key: k, expected } => k@ == key@ && expected@ == value@
                    && (find_row(table@.rows, key@) matches Some(row) && row[1] != value@),
                _ => false,
            },
        },
{
    let Some(i) = table.find_row_index(key) else {
        return Err(GoalError::MissingRow { key: key.to_owned() });
    };
    proof {
        assert(table@.rows[i as int] == table.rows@[i as int].deep_view());
        assert(table@.rows[i as int].len() == 2);
        assert(table@.rows[i as int][1] == table.rows@[i as int]@[1]@);
    }
    if crate::text::str_eq(table.rows[i][1].as_str(), value) {
        Ok(())
    } else {
        Err(GoalError::WrongRowValue { key: key.to_owned(), expected: value.to_owned() })
    }
}

/// Clone a table, content and span.
pub fn clone_table(table: &Table) -> (r: Table)
    ensures
        r@ == table@,
{
    let mut rows: Vec<Vec<String>> = Vec::new();
    let mut i: usize = 0;
    while i < table.rows.len()
        invariant
            0 <= i <= table.rows.len(),
            rows.len() == i,
            rows.deep_view() =~= table@.rows.take(i as int),
        decreases table.rows.len() - i,
    {
        proof {
            assert(table@.rows[i as int] == table.rows@[i as int].deep_view());
        }
        rows.push(clone_cells(&table.rows[i]));
        proof {
            assert(rows.deep_view() =~= table@.rows.take(i as int + 1));
        }
        i = i + 1;
    }
    proof {
        assert(rows.deep_view() =~= table@.rows);
    }
    let r = Table { header: clone_cells(&table.header), rows, span: table.span };
    proof {
        assert(r@ == table@);
    }
    r
}

/// The metadata table's point-of-contact row exists and holds a single
/// username.
pub open spec fn md_poc_ok(t: TableView) -> bool {
    find_row(t.rows, "Point of contact"@) matches Some(poc) && is_username(trim_spec(poc[1]))
}

/// The status the metadata table's status row parses to, if any.
pub open spec fn md_status_of(t: TableView) -> Option<Status> {
    match find_row(t.rows, "Status"@) {
        Some(st) => status_of_label(trim_spec(st[1])),
        None => None,
    }
}

/// The tracking-issue step passes: a non-empty value parses, and an
/// empty or absent value is allowed only off the accepted tier.
pub open spec fn md_tracking_ok(t: TableView) -> bool {
    md_status_of(t) matches Some(st) && match find_row(t.rows, "Tracking issue"@) {
        Some(ti) => if ti[1].len() > 0 {
            parse_issue(ti[1]) is Some
        } else {
            st.acceptance != AcceptanceStatus::Accepted
        },
        None => st.acceptance != AcceptanceStatus::Accepted,
    }
}

/// The row keyed `key` exists and holds exactly `value`.
pub open spec fn md_row_is(t: TableView, key: Seq<char>, value: Seq<char>) -> bool {
    find_row(t.rows, key) matches Some(row) && row[1] == value
}

/// The document reached the metadata table: sections exist, the first is
/// titled, has a table, and that table carries the metadata header.
pub open spec fn md_prelude(deep: Seq<SectionView>) -> bool {
    deep.len() > 0 && deep[0].title.len() > 0 && deep[0].tables.len() > 0
        && headers_match(deep[0].tables[0], metadata_header())
}

/// Exactly when each metadata error is raised, with the checks made in
/// order: each error's condition records that every earlier step passed.
pub open spec fn metadata_err(deep: Seq<SectionView>, e: GoalError) -> bool {
    match e {
        GoalError::NoSections => deep.len() == 0,
        GoalError::UntitledFirstSection => deep.len() > 0 && deep[0].title.len() == 0,
        GoalError::WrongTableHeader { expected, found } => deep.len() > 0
            && deep[0].title.len() > 0 && deep[0].tables.len() > 0
            && !headers_match(deep[0].tables[0], metadata_header())
            && expected.deep_view() == metadata_header()
            && found.deep_view() == deep[0].tables[0].header,
        GoalError::MissingRow { key } => md_prelude(deep) && ({
            let t = deep[0].tables[0];
            find_row(t.rows, key@) is None && (
                key@ == "Point of contact"@
                || (key@ == "Status"@ && md_poc_ok(t))
                || (key@ == "Teams"@ && md_poc_ok(t) && md_tracking_ok(t))
                || (key@ == "Task owners"@ && md_poc_ok(t) && md_tracking_ok(t)
                    && md_row_is(t, "Teams"@, "<!-- TEAMS WITH ASKS -->"@)))
        }),
        GoalError::InvalidPointOfContact { found } => md_prelude(deep) && ({
            let t = deep[0].tables[0];
            find_row(t.rows, "Point of contact"@) matches Some(poc) && found@ == poc[1]
                && !is_username(trim_spec(poc[1]))
        }),
        GoalError::InvalidStatus { found } => md_prelude(deep) && ({
            let t = deep[0].tables[0];
            md_poc_ok(t) && (find_row(t.rows, "Status"@) matches Some(st)
                && status_of_label(trim_spec(st[1])) is None && found@ == trim_spec(st[1]))
        }),
        GoalError::EmptyTrackingIssue => md_prelude(deep) && ({
            let t = deep[0].tables[0];
            md_poc_ok(t) && (md_status_of(t) matches Some(status)
                && status.acceptance == AcceptanceStatus::Accepted)
                && match find_row(t.rows, "Tracking issue"@) {
                Some(ti) => ti[1].len() == 0,
                None => true,
            }
        }),
        GoalError::InvalidIssue { found } => md_prelude(deep) && ({
            let t = deep[0].tables[0];
            md_poc_ok(t) && md_status_of(t) is Some
                && (find_row(t.rows, "Tracking issue"@) matches Some(ti) && ti[1].len() > 0
                && found@ == ti[1] && parse_issue(ti[1]) is None)
        }),
        GoalError::WrongRowValue { key, expected } => md_prelude(deep) && ({
            let t = deep[0].tables[0];
            md_poc_ok(t) && md_tracking_ok(t)
                && (find_row(t.rows, key@) matches Some(row) && row[1] != expected@)
                && ((key@ == "Teams"@ && expected@ == "<!-- TEAMS WITH ASKS -->"@)
                    || (key@ == "Task owners"@ && expected@ == "<!-- TASK OWNERS -->"@
                        && md_row_is(t, "Teams"@, "<!-- TEAMS WITH ASKS -->"@)))
        }),
        _ => false,
    }
}

/// What a successfully extracted metadata record says of its document:
/// the first section is titled and has the metadata table first; the
/// required rows are present and valid; an accepted goal carries a
/// parsed tracking issue.
pub open spec fn metadata_ok(deep: Seq<SectionView>, m: MetadataView) -> bool {
    deep.len() > 0 && deep[0].title.len() > 0 && deep[0].tables.len() > 0 && {
        let table = deep[0].tables[0];
        &&& headers_match(table, metadata_header())
        &&& m.table == table
        &&& m.title == deep[0].title
        &&& m.short_title == (match find_row(table.rows, "Short title"@) {
            Some(row) => row[1],
            None => deep[0].title,
        })
        &&& find_row(table.rows, "Point of contact"@) matches Some(poc) && m.pocs == poc[1]
            && is_username(trim_spec(poc[1]))
        &&& find_row(table.rows, "Status"@) matches Some(st) && status_of_label(trim_spec(st[1]))
            == Some(m.status)
        &&& match find_row(table.rows, "Tracking issue"@) {
            Some(ti) => if ti[1].len() > 0 {
                m.tracking_issue matches Some(id) && parse_issue(ti[1]) == Some(id)
            } else {
                m.tracking_issue is None && m.status.acceptance != AcceptanceStatus::Accepted
            },
            None => m.tracking_issue is None
                && m.status.acceptance != AcceptanceStatus::Accepted,
        }
        &&& find_row(table.rows, "Teams"@) matches Some(tr) && tr[1] == TEAMS_WITH_ASKS_STR@
        &&& find_row(table.rows, "Task owners"@) matches Some(tor)
            && tor[1] == TASK_OWNERS_STR@
    }
}

/// Extract and validate the metadata table of a document's first
/// section. A first section without any table is not an error: the
/// document is simply not a goal document, and `Ok(None)` is returned.
pub fn extract_metadata(sections: &Vec<Section>) -> (r: Result<Option<Metadata>, GoalError>)
    requires
        sections_wf(sections.deep_view()),
    ensures
        ({
            let deep = sections.deep_view();
            match r {
                Ok(None) => deep.len() > 0 && deep[0].title.len() > 0
                    && deep[0].tables.len() == 0,
                Ok(Some(m)) => metadata_ok(deep, m@),
                Err(e) => metadata_err(deep, e),
            }
        }),
{
    if sections.len() == 0 {
        return Err(GoalError::NoSections);
    }
    let first = &sections[0];
    proof {
        assert(sections.deep_view()[0] == sections@[0]@);
    }
    if first.title.as_str().unicode_len() == 0 {
        return Err(GoalError::UntitledFirstSection);
    }
    if first.tables.len() == 0 {
        return Ok(None);
    }
    let table = &first.tables[0];
    proof {
        assert(first@.tables[0] == first.tables@[0]@);
        assert(first@.tables[0].wf());
        assert((&["Metadata", ""]).deep_view() =~= metadata_header());
    }
    if let Err(e) = expect_headers(table, &["Metadata", ""]) {
        return Err(e);
    }
    proof {
        assert(table@.header.len() == 2);
    }

    let short_title_idx = table.find_row_index("Short title");

    let Some(poc_idx) = table.find_row_index("Point of contact") else {
        return Err(GoalError::MissingRow { key: "Point of contact".to_owned() });
    };
    proof {
        assert(table@.rows[poc_idx as int] == table.rows@[poc_idx as int].deep_view());
        assert(table@.rows[poc_idx as int].len() == 2);
        assert(table@.rows[poc_idx as int][1] == table.rows@[poc_idx as int]@[1]@);
    }
    let poc_value = &table.rows[poc_idx][1];
    let poc_trimmed = trim(poc_value.as_str());
    if !is_just_username(poc_trimmed.as_str()) {
        return Err(GoalError::InvalidPointOfContact { found: poc_value.clone() });
    }

    let Some(status_idx) = table.find_row_index("Status") else {
        return Err(GoalError::MissingRow { key: "Status".to_owned() });
    };
    proof {
        assert(table@.rows[status_idx as int] == table.rows@[status_idx as int].deep_view());
        assert(table@.rows[status_idx as int].len() == 2);
        assert(table@.rows[status_idx as int][1] == table.rows@[status_idx as int]@[1]@);
    }
    let status = match Status::parse(table.rows[status_idx][1].as_str()) {
        Ok(st) => st,
        Err(e) => {
            return Err(e);
        },
    };

    let tracking_issue: Option<IssueId> = match table.find_row_index(TRACKING_ISSUE_ROW) {
        Some(ti_idx) => {
            proof {
                reveal_strlit("Tracking issue");
                assert(table@.rows[ti_idx as int] == table.rows@[ti_idx as int].deep_view());
                assert(table@.rows[ti_idx as int].len() == 2);
                assert(table@.rows[ti_idx as int][1] == table.rows@[ti_idx as int]@[1]@);
            }
            let value = &table.rows[ti_idx][1];
            if value.as_str().unicode_len() == 0 {
                if status.acceptance == AcceptanceStatus::Accepted {
                    return Err(GoalError::EmptyTrackingIssue);
                }
                None
            } else {
                match IssueId::parse(value.as_str()) {
                    Ok(id) => Some(id),
                    Err(e) => {
                        return Err(e);
                    },
                }
            }
        },
        None => {
            proof {
                reveal_strlit("Tracking issue");
            }
            if status.acceptance == AcceptanceStatus::Accepted {
                return Err(GoalError::EmptyTrackingIssue);
            }
            None
        },
    };

    if let Err(e) = verify_row(table, "Teams", TEAMS_WITH_ASKS_STR) {
        return Err(e);
    }
    if let Err(e) = verify_row(table, "Task owners", TASK_OWNERS_STR) {
        return Err(e);
    }

    let short_title: String = match short_title_idx {
        Some(si) => {
            proof {
                assert(table@.rows[si as int] == table.rows@[si as int].deep_view());
                assert(table@.rows[si as int].len() == 2);
                assert(table@.rows[si as int][1] == table.rows@[si as int]@[1]@);
            }
            table.rows[si][1].clone()
        },
        None => first.title.clone(),
    };

    Ok(Some(Metadata {
        title: first.title.clone(),
        short_title,
        pocs: poc_value.clone(),
        status,
        tracking_issue,
        table: clone_table(table),
    }))
}

} // verus!
