//! Structured errors for document loading. Every failure carries the
//! offending field, so callers can report exactly what was wrong and
//! where; `kind` places each failure in one of four categories.

use vstd::prelude::*;
use crate::registry::{AskEntry, AskEntryView};

verus! {

/// The four categories of load failure.
#[derive(Debug, Clone, Copy, PartialEq, Eq, Structural)]
pub enum ErrorKind {
    /// Wrong or missing header, missing required row, ambiguous tables.
    SchemaViolation,
    /// Malformed username, unparseable status label or issue reference,
    /// empty tracking issue on an accepted goal.
    ValueViolation,
    /// Unknown team name or unrecognized team-ask phrase.
    ReferenceViolation,
    /// Accepted or proposed goal with zero team asks.
    InvariantViolation,
}

/// One fully-contextualized reason a document failed to load.
#[derive(Debug, Clone)]
pub enum GoalError {
    /// The document has no sections at all.
    NoSections,
    /// The first section has an empty title.
    UntitledFirstSection,
    /// A table's header row was not the expected one.
    WrongTableHeader { expected: Vec<String>, found: Vec<String> },
    /// The metadata table lacks a required row.
    MissingRow { key: String },
    /// A required metadata row holds a value other than its fixed literal.
    WrongRowValue { key: String, expected: String },
    /// The point-of-contact value is not a single username.
    InvalidPointOfContact { found: String },
    /// The status label is not one of the recognized labels.
    InvalidStatus { found: String },
    /// The tracking-issue value could not be parsed.
    InvalidIssue { found: String },
    /// An accepted goal has an empty or absent tracking-issue row.
    EmptyTrackingIssue,
    /// No section titled `Ownership and team asks` was found.
    MissingPlanSection,
    /// A plan section holds more than one table; the header of each of
    /// its tables is carried for the report.
    MultiplePlanTables { section_title: String, count: usize, headers: Vec<Vec<String>> },
    /// The plan section and its subsections yielded no plan tables.
    NoPlanItems,
    /// An owners cell names a team absent from the registry; the valid
    /// team names are carried for the report.
    UnknownTeam { name: String, valid: Vec<String> },
    /// A team ask whose owners cell names no team at all.
    NoTeamsListed { task: String },
    /// A team ask whose task text is not in the recognized vocabulary;
    /// the vocabulary is carried for the report.
    UnrecognizedAsk { task: String, valid: Vec<AskEntry> },
    /// An accepted or proposed goal produced zero team asks.
    NoTeamAsks,
}

/// The category of each failure.
pub open spec fn kind_of(e: GoalError) -> ErrorKind {
    match e {
        GoalError::NoSections => ErrorKind::SchemaViolation,
        GoalError::UntitledFirstSection => ErrorKind::SchemaViolation,
        GoalError::WrongTableHeader { .. } => ErrorKind::SchemaViolation,
        GoalError::MissingRow { .. } => ErrorKind::SchemaViolation,
        GoalError::WrongRowValue { .. } => ErrorKind::SchemaViolation,
        GoalError::InvalidPointOfContact { .. } => ErrorKind::ValueViolation,
        GoalError::InvalidStatus { .. } => ErrorKind::ValueViolation,
        GoalError::InvalidIssue { .. } => ErrorKind::ValueViolation,
        GoalError::EmptyTrackingIssue => ErrorKind::ValueViolation,
        GoalError::MissingPlanSection => ErrorKind::SchemaViolation,
        GoalError::MultiplePlanTables { .. } => ErrorKind::SchemaViolation,
        GoalError::NoPlanItems => ErrorKind::SchemaViolation,
        GoalError::UnknownTeam { .. } => ErrorKind::ReferenceViolation,
        GoalError::NoTeamsListed { .. } => ErrorKind::ReferenceViolation,
        GoalError::UnrecognizedAsk { .. } => ErrorKind::ReferenceViolation,
        GoalError::NoTeamAsks => ErrorKind::InvariantViolation,
    }
}

/// One line per table header, each as its comma-joined cells.
pub open spec fn headers_lines(hs: Seq<Seq<Seq<char>>>) -> Seq<char>
    decreases hs.len(),
{
    if hs.len() == 0 {
        Seq::empty()
    } else {
        " ["@ + crate::table_fmt::commas_spec(hs[0]) + "]"@ + headers_lines(hs.drop_first())
    }
}

/// One line per vocabulary entry, each naming the ask and what it asks
/// the team to do.
pub open spec fn asks_lines(entries: Seq<AskEntryView>) -> Seq<char>
    decreases entries.len(),
{
    if entries.len() == 0 {
        Seq::empty()
    } else {
        " * `"@ + entries[0].ask + "`, meaning team should "@ + entries[0].about + ";"@
            + asks_lines(entries.drop_first())
    }
}

fn render_headers_lines(hs: &Vec<Vec<String>>, from: usize) -> (r: String)
    requires
        from <= hs.len(),
    ensures
        r@ == headers_lines(hs.deep_view().skip(from as int)),
    decreases hs.len() - from,
{
    let ghost deep = hs.deep_view();
    if from == hs.len() {
        proof {
            assert(deep.skip(from as int) =~= Seq::<Seq<Seq<char>>>::empty());
        }
        return String::new();
    }
    proof {
        assert(deep.skip(from as int)[0] == deep[from as int]);
        assert(deep.skip(from as int).drop_first() =~= deep.skip(from as int + 1));
        assert(deep[from as int] == hs@[from as int].deep_view());
    }
    let mut out = String::new();
    out.append(" [");
    let cells = crate::table_fmt::commas(&hs[from]);
    out.append(cells.as_str());
    out.append("]");
    let rest = render_headers_lines(hs, from + 1);
    out.append(rest.as_str());
    proof {
        assert(out@ =~= headers_lines(deep.skip(from as int)));
    }
    out
}

fn render_asks_lines(entries: &Vec<AskEntry>, from: usize) -> (r: String)
    requires
        from <= entries.len(),
    ensures
        r@ == asks_lines(entries.deep_view().skip(from as int)),
    decreases entries.len() - from,
{
    let ghost deep = entries.deep_view();
    if from == entries.len() {
        proof {
            assert(deep.skip(from as int) =~= Seq::<AskEntryView>::empty());
        }
        return String::new();
    }
    proof {
        assert(deep.skip(from as int)[0] == deep[from as int]);
        assert(deep.skip(from as int).drop_first() =~= deep.skip(from as int + 1));
        assert(deep[from as int] == entries@[from as int]@);
    }
    let mut out = String::new();
    out.append(" * `");
    out.append(entries[from].ask.as_str());
    out.append("`, meaning team should ");
    out.append(entries[from].about.as_str());
    out.append(";");
    let rest = render_asks_lines(entries, from + 1);
    out.append(rest.as_str());
    proof {
        assert(out@ =~= asks_lines(deep.skip(from as int)));
    }
    out
}

/// The message text of each failure, naming the offending row or field.
pub open spec fn msg_of(e: GoalError) -> Seq<char> {
    match e {
        GoalError::NoSections => "no sections found in input"@,
        GoalError::UntitledFirstSection => "first section has no title"@,
        GoalError::WrongTableHeader { expected, found } => "unexpected table header, expected `"@
            + crate::table_fmt::commas_spec(expected.deep_view()) + "`, found `"@
            + crate::table_fmt::commas_spec(found.deep_view()) + "`"@,
        GoalError::MissingRow { key } => "metadata table has no `"@ + key@ + "` row"@,
        GoalError::WrongRowValue { key, expected } => "metadata table has incorrect `"@ + key@
            + "` row, expected `"@ + expected@ + "`"@,
        GoalError::InvalidPointOfContact { found } =>
            "point of contact must be a single github username (found `"@ + found@ + "`)"@,
        GoalError::InvalidStatus { found } => "unrecognized status `"@ + found@
            + "`, expected one of: Flagship, Accepted, Invited, Proposed, Proposed for flagship, Proposed for mentorship, Not accepted"@,
        GoalError::InvalidIssue { found } => "invalid tracking issue reference `"@ + found@
            + "`"@,
        GoalError::EmptyTrackingIssue => "accepted goals cannot have an empty tracking issue"@,
        GoalError::MissingPlanSection => "no `Ownership and team asks` section found"@,
        GoalError::MultiplePlanTables { section_title, count, headers } =>
            "multiple ("@ + crate::text::dec_digits(count as nat)
            + ") goal tables in section `"@ + section_title@ + "`:"@
            + headers_lines(headers.deep_view()),
        GoalError::NoPlanItems =>
            "no goal table items found in the `Ownership and team asks` section or subsections"@,
        GoalError::UnknownTeam { name, valid } => "no team named `"@ + name@
            + "` found (valid names are: "@ + crate::table_fmt::commas_spec(valid.deep_view())
            + ")"@,
        GoalError::NoTeamsListed { task } => "team ask for `"@ + task@
            + "` does not list any teams"@,
        GoalError::UnrecognizedAsk { task, valid } => "unrecognized team ask `"@ + task@
            + "`, team asks must be one of the following:"@ + asks_lines(valid.deep_view()),
        GoalError::NoTeamAsks => "no team asks in goal; did you include `![Team]` in the table?"@,
    }
}

impl GoalError {
    /// The failure's message, naming the offending row or field.
    pub fn message(&self) -> (r: String)
        ensures
            r@ == msg_of(*self),
    {
        let mut out = String::new();
        match self {
            GoalError::NoSections => {
                out.append("no sections found in input");
            },
            GoalError::UntitledFirstSection => {
                out.append("first section has no title");
            },
            GoalError::WrongTableHeader { expected, found } => {
                out.append("unexpected table header, expected `");
                let e = crate::table_fmt::commas(expected);
                out.append(e.as_str());
                out.append("`, found `");
                let f = crate::table_fmt::commas(found);
                out.append(f.as_str());
                out.append("`");
            },
            GoalError::MissingRow { key } => {
                out.append("metadata table has no `");
                out.append(key.as_str());
                out.append("` row");
            },
            GoalError::WrongRowValue { key, expected } => {
                out.append("metadata table has incorrect `");
                out.append(key.as_str());
                out.append("` row, expected `");
                out.append(expected.as_str());
                out.append("`");
            },
            GoalError::InvalidPointOfContact { found } => {
                out.append("point of contact must be a single github username (found `");
                out.append(found.as_str());
                out.append("`)");
            },
            GoalError::InvalidStatus { found } => {
                out.append("unrecognized status `");
                out.append(found.as_str());
                out.append(
                    "`, expected one of: Flagship, Accepted, Invited, Proposed, Proposed for flagship, Proposed for mentorship, Not accepted",
                );
            },
            GoalError::InvalidIssue { found } => {
                out.append("invalid tracking issue reference `");
                out.append(found.as_str());
                out.append("`");
            },
            GoalError::EmptyTrackingIssue => {
                out.append("accepted goals cannot have an empty tracking issue");
            },
            GoalError::MissingPlanSection => {
                out.append("no `Ownership and team asks` section found");
            },
            GoalError::MultiplePlanTables { section_title, count, headers } => {
                out.append("multiple (");
                let n = crate::text::usize_to_dec(*count);
                out.append(n.as_str());
                out.append(") goal tables in section `");
                out.append(section_title.as_str());
                out.append("`:");
                proof {
                    assert(headers.deep_view().skip(0) =~= headers.deep_view());
                }
                let hl = render_headers_lines(headers, 0);
                out.append(hl.as_str());
            },
            GoalError::NoPlanItems => {
                out.append(
                    "no goal table items found in the `Ownership and team asks` section or subsections",
                );
            },
            GoalError::UnknownTeam { name, valid } => {
                out.append("no team named `");
                out.append(name.as_str());
                out.append("` found (valid names are: ");
                let names = crate::table_fmt::commas(valid);
                out.append(names.as_str());
                out.append(")");
            },
            GoalError::NoTeamsListed { task } => {
                out.append("team ask for `");
                out.append(task.as_str());
                out.append("` does not list any teams");
            },
            GoalError::UnrecognizedAsk { task, valid } => {
                out.append("unrecognized team ask `");
                out.append(task.as_str());
                out.append("`, team asks must be one of the following:");
                proof {
                    assert(valid.deep_view().skip(0) =~= valid.deep_view());
                }
                let al = render_asks_lines(valid, 0);
                out.append(al.as_str());
            },
            GoalError::NoTeamAsks => {
                out.append("no team asks in goal; did you include `![Team]` in the table?");
            },
        }
        proof {
            assert(out@ =~= msg_of(*self));
        }
        out
    }

    /// The category this failure falls in.
    pub fn kind(&self) -> (r: ErrorKind)
        ensures
            r == kind_of(*self),
    {
        match self {
            GoalError::NoSections => ErrorKind::SchemaViolation,
            GoalError::UntitledFirstSection => ErrorKind::SchemaViolation,
            GoalError::WrongTableHeader { .. } => ErrorKind::SchemaViolation,
            GoalError::MissingRow { .. } => ErrorKind::SchemaViolation,
            GoalError::WrongRowValue { .. } => ErrorKind::SchemaViolation,
            GoalError::InvalidPointOfContact { .. } => ErrorKind::ValueViolation,
            GoalError::InvalidStatus { .. } => ErrorKind::ValueViolation,
            GoalError::InvalidIssue { .. } => ErrorKind::ValueViolation,
            GoalError::EmptyTrackingIssue => ErrorKind::ValueViolation,
            GoalError::MissingPlanSection => ErrorKind::SchemaViolation,
            GoalError::MultiplePlanTables { .. } => ErrorKind::SchemaViolation,
            GoalError::NoPlanItems => ErrorKind::SchemaViolation,
            GoalError::UnknownTeam { .. } => ErrorKind::ReferenceViolation,
            GoalError::NoTeamsListed { .. } => ErrorKind::ReferenceViolation,
            GoalError::UnrecognizedAsk { .. } => ErrorKind::ReferenceViolation,
            GoalError::NoTeamAsks => ErrorKind::InvariantViolation,
        }
    }
}

} // verus!
