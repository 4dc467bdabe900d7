use project_goals::document::GoalDocument;
use project_goals::errors::{ErrorKind, GoalError};
use project_goals::issue::IssueId;
use project_goals::metadata::{extract_metadata, Metadata, TASK_OWNERS_STR, TEAMS_WITH_ASKS_STR};
use project_goals::model::{expect_headers, Section, Span, Table};
use project_goals::plan::{extract_plan_items, owner_usernames, extract_team_names, ParsedOwners, PlanItem};
use project_goals::registry::{AskEntry, Configuration, TeamRegistry};
use project_goals::status::{AcceptanceStatus, Status};
use project_goals::table_fmt::format_goal_table;
use project_goals::document::extract_summary;

fn s(x: &str) -> String {
    x.to_string()
}

fn row2(k: &str, v: &str) -> Vec<String> {
    vec![s(k), s(v)]
}

fn metadata_table(rows: Vec<Vec<String>>) -> Table {
    Table { header: vec![s("Metadata"), s("")], rows, span: Span { start: 0, end: 0 } }
}

fn standard_rows(status: &str, tracking: Option<&str>) -> Vec<Vec<String>> {
    let mut rows = vec![
        row2("Point of contact", "@alice"),
        row2("Status", status),
        row2("Teams", TEAMS_WITH_ASKS_STR),
        row2("Task owners", TASK_OWNERS_STR),
    ];
    if let Some(t) = tracking {
        rows.push(row2("Tracking issue", t));
    }
    rows
}

fn first_section(table: Option<Table>) -> Section {
    Section {
        title: s("My goal"),
        level: 1,
        text: String::new(),
        tables: table.into_iter().collect(),
    }
}

fn plan_table(rows: Vec<Vec<String>>) -> Table {
    Table {
        header: vec![s("Task"), s("Owner(s) or team(s)"), s("Notes")],
        rows,
        span: Span { start: 0, end: 0 },
    }
}

fn plan_section(rows: Vec<Vec<String>>) -> Section {
    Section {
        title: s("Ownership and team asks"),
        level: 2,
        text: String::new(),
        tables: vec![plan_table(rows)],
    }
}

fn registry() -> TeamRegistry {
    TeamRegistry { names: vec![s("lang"), s("compiler")] }
}

fn config() -> Configuration {
    Configuration {
        team_asks: vec![AskEntry { ask: s("Stabilize feature"), about: s("decide") }],
    }
}

#[test]
fn status_parser_all_seven_labels() {
    let cases = [
        ("Flagship", true, AcceptanceStatus::Accepted, false),
        ("Accepted", false, AcceptanceStatus::Accepted, false),
        ("Invited", false, AcceptanceStatus::Accepted, true),
        ("Proposed", false, AcceptanceStatus::Proposed, false),
        ("Proposed for flagship", true, AcceptanceStatus::Proposed, false),
        ("Proposed for mentorship", false, AcceptanceStatus::Proposed, true),
        ("Not accepted", false, AcceptanceStatus::NotAccepted, false),
    ];
    for (label, flagship, acceptance, invited) in cases {
        let st = Status::parse(label).unwrap();
        assert_eq!(st.is_flagship, flagship, "{label}");
        assert_eq!(st.acceptance, acceptance, "{label}");
        assert_eq!(st.is_invited, invited, "{label}");
    }
}

#[test]
fn status_parser_trims_whitespace() {
    let st = Status::parse("  Accepted \n").unwrap();
    assert_eq!(st.acceptance, AcceptanceStatus::Accepted);
}

#[test]
fn status_parser_rejects_unknown_label() {
    let e = Status::parse("Banana").unwrap_err();
    assert!(matches!(&e, GoalError::InvalidStatus { found } if found == "Banana"));
    assert_eq!(e.kind(), ErrorKind::ValueViolation);
}

#[test]
fn metadata_missing_required_rows() {
    for key in ["Point of contact", "Status", "Teams", "Task owners"] {
        let rows: Vec<Vec<String>> = standard_rows("Proposed", None)
            .into_iter()
            .filter(|r| r[0] != key)
            .collect();
        let sections = vec![first_section(Some(metadata_table(rows)))];
        let e = extract_metadata(&sections).unwrap_err();
        assert!(matches!(&e, GoalError::MissingRow { key: k } if k == key), "{key}");
        assert_eq!(e.kind(), ErrorKind::SchemaViolation);
    }
}

#[test]
fn metadata_wrong_placeholder_value() {
    let mut rows = standard_rows("Proposed", None);
    rows[2] = row2("Teams", "handwritten");
    let sections = vec![first_section(Some(metadata_table(rows)))];
    let e = extract_metadata(&sections).unwrap_err();
    assert!(matches!(&e, GoalError::WrongRowValue { key, .. } if key == "Teams"));
    assert_eq!(e.kind(), ErrorKind::SchemaViolation);
}

#[test]
fn metadata_wrong_header() {
    let mut table = metadata_table(standard_rows("Proposed", None));
    table.header = vec![s("Meta"), s("")];
    let sections = vec![first_section(Some(table))];
    let e = extract_metadata(&sections).unwrap_err();
    assert!(matches!(e, GoalError::WrongTableHeader { .. }));
}

#[test]
fn metadata_bad_point_of_contact() {
    let mut rows = standard_rows("Proposed", None);
    rows[0] = row2("Point of contact", "alice and friends");
    let sections = vec![first_section(Some(metadata_table(rows)))];
    let e = extract_metadata(&sections).unwrap_err();
    assert!(matches!(e, GoalError::InvalidPointOfContact { .. }));
    assert_eq!(e.kind(), ErrorKind::ValueViolation);
}

#[test]
fn accepted_goal_requires_tracking_issue() {
    // Absent row.
    let sections = vec![first_section(Some(metadata_table(standard_rows("Accepted", None))))];
    let e = extract_metadata(&sections).unwrap_err();
    assert!(matches!(e, GoalError::EmptyTrackingIssue));
    assert_eq!(e.kind(), ErrorKind::ValueViolation);

    // Present but empty row.
    let sections = vec![first_section(Some(metadata_table(standard_rows(
        "Accepted",
        Some(""),
    ))))];
    let e = extract_metadata(&sections).unwrap_err();
    assert!(matches!(e, GoalError::EmptyTrackingIssue));

    // Well-formed value succeeds and is exposed.
    let sections = vec![first_section(Some(metadata_table(standard_rows(
        "Accepted",
        Some("[rust-lang/rust#42]"),
    ))))];
    let m: Metadata = extract_metadata(&sections).unwrap().unwrap();
    let id = m.tracking_issue.expect("tracking issue");
    assert_eq!(id.org, "rust-lang");
    assert_eq!(id.repo, "rust");
    assert_eq!(id.number, "42");
}

#[test]
fn malformed_tracking_issue_fails() {
    let sections = vec![first_section(Some(metadata_table(standard_rows(
        "Accepted",
        Some("no brackets"),
    ))))];
    let e = extract_metadata(&sections).unwrap_err();
    assert!(matches!(e, GoalError::InvalidIssue { .. }));
}

#[test]
fn document_without_metadata_table_is_not_a_goal() {
    let sections = vec![first_section(None)];
    assert!(extract_metadata(&sections).unwrap().is_none());
    let r = GoalDocument::load("d/g.md", "g.md", &sections, &registry(), &config());
    assert!(r.unwrap().is_none());
}

#[test]
fn issue_id_round_trips() {
    let id = IssueId::new(s("rust-lang"), s("rust"), s("123")).unwrap();
    let rendered = id.render();
    assert_eq!(rendered, "[rust-lang/rust#123]");
    let back = IssueId::parse(&rendered).unwrap();
    assert_eq!(back.org, "rust-lang");
    assert_eq!(back.repo, "rust");
    assert_eq!(back.number, "123");
    assert_eq!(id.url(), "https://github.com/rust-lang/rust/issues/123");
}

#[test]
fn issue_id_rejects_malformed_text() {
    assert!(matches!(IssueId::parse("garbage"), Err(GoalError::InvalidIssue { .. })));
    assert!(matches!(IssueId::parse("[rust-lang#12]"), Err(GoalError::InvalidIssue { .. })));
    assert!(matches!(IssueId::parse("[rust-lang/rust#012]"), Err(GoalError::InvalidIssue { .. })));
    assert!(IssueId::new(s(""), s("rust"), s("12")).is_err());
}

fn item(text: &str, owners: &str, notes: &str) -> PlanItem {
    PlanItem { text: s(text), owners: s(owners), notes: s(notes) }
}

#[test]
fn team_ask_classification() {
    let it = item("Stabilize feature", "![Team] lang", "");
    assert!(it.is_team_ask());
    let teams = it.teams_being_asked(&registry()).unwrap();
    assert_eq!(teams, vec![s("lang")]);
}

#[test]
fn individual_owners_classification() {
    let it = item("Implement", "alice, bob", "");
    assert!(!it.is_team_ask());
    assert_eq!(it.task_owners(), vec![s("alice"), s("bob")]);
    assert!(it.teams_being_asked(&registry()).unwrap().is_empty());
}

#[test]
fn unknown_team_is_rejected_with_reference_violation() {
    let it = item("Stabilize feature", "![Team] nosuch", "");
    let e = it.teams_being_asked(&registry()).unwrap_err();
    assert!(matches!(&e, GoalError::UnknownTeam { name, .. } if name == "nosuch"));
    assert!(matches!(&e, GoalError::UnknownTeam { valid, .. } if *valid == vec![s("lang"), s("compiler")]));
    assert_eq!(e.kind(), ErrorKind::ReferenceViolation);
}

#[test]
fn team_ask_without_teams_is_rejected() {
    let it = item("Stabilize feature", "![Team]", "");
    let e = it.teams_being_asked(&registry()).unwrap_err();
    assert!(matches!(e, GoalError::NoTeamsListed { .. }));
}

#[test]
fn completion_marker_in_notes() {
    assert!(item("t", "alice", "done ![Complete]").is_complete());
    assert!(!item("t", "alice", "in progress").is_complete());
}

#[test]
fn parse_owners_variants() {
    let reg = registry();
    assert!(item("t", "", "").parse_owners(&reg).unwrap().is_none());
    match item("t", "![Team] lang, compiler", "").parse_owners(&reg).unwrap().unwrap() {
        ParsedOwners::TeamAsks(ts) => assert_eq!(ts, vec![s("lang"), s("compiler")]),
        other => panic!("expected team asks, got {other:?}"),
    }
    match item("t", "@alice, @bob", "").parse_owners(&reg).unwrap().unwrap() {
        ParsedOwners::Usernames(us) => assert_eq!(us, vec![s("@alice"), s("@bob")]),
        other => panic!("expected usernames, got {other:?}"),
    }
}

#[test]
fn owner_usernames_finds_usernames_inside_tokens() {
    assert_eq!(owner_usernames("(@alice) and @bob-x"), vec![s("@alice"), s("@bob-x")]);
    assert!(owner_usernames("nobody here").is_empty());
}

#[test]
fn extract_team_names_drops_marker_word() {
    assert_eq!(extract_team_names("![Team] lang, compiler"), vec![s("lang"), s("compiler")]);
}

#[test]
fn expect_headers_reports_mismatch() {
    let t = plan_table(vec![]);
    assert!(expect_headers(&t, &["Task", "Owner(s) or team(s)", "Notes"]).is_ok());
    let e = expect_headers(&t, &["Metadata", ""]).unwrap_err();
    assert!(matches!(e, GoalError::WrongTableHeader { .. }));
}

#[test]
fn plan_extraction_requires_plan_section() {
    let sections = vec![first_section(Some(metadata_table(standard_rows("Proposed", None))))];
    let e = extract_plan_items(&sections).unwrap_err();
    assert!(matches!(e, GoalError::MissingPlanSection));
}

#[test]
fn plan_extraction_collects_subsections() {
    let mut sub = plan_section(vec![vec![s("Sub task"), s("alice"), s("")]]);
    sub.title = s("Subgoal A");
    sub.level = 3;
    let sections = vec![
        first_section(Some(metadata_table(standard_rows("Proposed", None)))),
        plan_section(vec![vec![s("Stabilize feature"), s("![Team] lang"), s("")]]),
        sub,
    ];
    let plans = extract_plan_items(&sections).unwrap();
    assert_eq!(plans.len(), 2);
    assert!(plans[0].subgoal.is_none());
    assert_eq!(plans[1].subgoal.as_deref(), Some("Subgoal A"));
    assert_eq!(plans[1].plan_items[0].text, "Sub task");
}

#[test]
fn multiple_plan_tables_are_ambiguous() {
    let mut sec = plan_section(vec![]);
    sec.tables.push(plan_table(vec![]));
    let sections = vec![
        first_section(Some(metadata_table(standard_rows("Proposed", None)))),
        sec,
    ];
    let e = extract_plan_items(&sections).unwrap_err();
    assert!(matches!(&e, GoalError::MultiplePlanTables { count, .. } if *count == 2));
}

fn goal_sections(status: &str, tracking: Option<&str>, plan_rows: Vec<Vec<String>>) -> Vec<Section> {
    vec![
        first_section(Some(metadata_table(standard_rows(status, tracking)))),
        Section {
            title: s("Summary"),
            level: 2,
            text: s("  A summary.  "),
            tables: vec![],
        },
        plan_section(plan_rows),
    ]
}

#[test]
fn accepted_goal_with_no_team_asks_fails_aggregation() {
    let sections = goal_sections(
        "Accepted",
        Some("[rust-lang/rust#42]"),
        vec![vec![s("Implement"), s("alice"), s("")]],
    );
    let e = GoalDocument::load("2024h2/g.md", "g.md", &sections, &registry(), &config())
        .unwrap_err();
    assert!(matches!(e, GoalError::NoTeamAsks));
    assert_eq!(e.kind(), ErrorKind::InvariantViolation);
}

#[test]
fn accepted_goal_with_recognized_ask_loads() {
    let sections = goal_sections(
        "Accepted",
        Some("[rust-lang/rust#42]"),
        vec![
            vec![s("Stabilize feature"), s("![Team] lang, compiler"), s("")],
            vec![s("Implement"), s("bob, alice"), s("")],
        ],
    );
    let doc = GoalDocument::load("2024h2/g.md", "g.md", &sections, &registry(), &config())
        .unwrap()
        .unwrap();
    assert_eq!(doc.summary, "A summary.");
    assert_eq!(doc.team_asks.len(), 1);
    assert_eq!(doc.team_asks[0].ask_description, "Stabilize feature");
    assert_eq!(doc.team_asks[0].teams, vec![s("lang"), s("compiler")]);
    assert_eq!(doc.team_asks[0].owners, "@alice");
    // Sorted, de-duplicated derived views.
    assert_eq!(doc.task_owners, vec![s("alice"), s("bob")]);
    assert_eq!(doc.teams_with_asks(), vec![s("compiler"), s("lang")]);
}

#[test]
fn unrecognized_ask_fails_with_reference_violation() {
    let sections = goal_sections(
        "Accepted",
        Some("[rust-lang/rust#42]"),
        vec![vec![s("Do a mystery"), s("![Team] lang"), s("")]],
    );
    let e = GoalDocument::load("2024h2/g.md", "g.md", &sections, &registry(), &config())
        .unwrap_err();
    assert!(matches!(&e, GoalError::UnrecognizedAsk { task, .. } if task == "Do a mystery"));
    assert!(e.message().contains("team asks must be one of the following:"));
    assert!(e.message().contains("* `Stabilize feature`, meaning team should decide"));
    assert_eq!(e.kind(), ErrorKind::ReferenceViolation);
}

#[test]
fn not_accepted_goal_skips_plan() {
    let sections = vec![first_section(Some(metadata_table(standard_rows(
        "Not accepted",
        None,
    ))))];
    let doc = GoalDocument::load("2024h2/g.md", "g.md", &sections, &registry(), &config())
        .unwrap()
        .unwrap();
    assert!(doc.goal_plans.is_empty());
    assert!(doc.team_asks.is_empty());
    // No summary section: falls back to the title.
    assert_eq!(doc.summary, "My goal");
}

#[test]
fn summary_section_is_trimmed() {
    let sections = vec![
        first_section(None),
        Section { title: s("Summary"), level: 2, text: s("\n  hello \n"), tables: vec![] },
    ];
    assert_eq!(extract_summary(&sections).unwrap().as_deref(), Some("hello"));
}

fn load_goal(status: &str, tracking: Option<&str>) -> GoalDocument {
    let sections = goal_sections(
        status,
        tracking,
        vec![vec![s("Stabilize feature"), s("![Team] lang"), s("")]],
    );
    GoalDocument::load("2024h2/goal.md", "goal.md", &sections, &registry(), &config())
        .unwrap()
        .unwrap()
}

#[test]
fn goal_table_layout_depends_on_proposed_goals() {
    let proposed = load_goal("Proposed", None);
    let accepted = load_goal("Accepted", Some("[rust-lang/rust#42]"));

    let with_proposed = format_goal_table(&vec![proposed]);
    assert_eq!(with_proposed[0], vec![s("Goal"), s("Point of contact"), s("Team")]);
    assert_eq!(with_proposed[1][0], "[My goal](goal.md)");
    assert_eq!(with_proposed[1][1], "@alice");
    assert_eq!(with_proposed[1][2], "lang");

    let without_proposed = format_goal_table(&vec![accepted]);
    assert_eq!(without_proposed[0], vec![s("Goal"), s("Point of contact"), s("Progress")]);
    assert!(without_proposed[1][2].contains("2024h2:rust-lang:rust:42"));
    assert!(without_proposed[1][2].contains("https://github.com/rust-lang/rust/issues/42"));
}

#[test]
fn invited_goal_shows_help_wanted() {
    let sections = vec![first_section(Some(metadata_table({
        let mut rows = standard_rows("Invited", Some("[rust-lang/rust#7]"));
        rows[1] = row2("Status", "Invited");
        rows
    })))];
    let doc = GoalDocument::load("2024h2/g.md", "g.md", &sections, &registry(), &{
        let mut c = config();
        c.team_asks.push(AskEntry { ask: s("x"), about: s("y") });
        c
    });
    // Invited is Accepted, so a plan is required; absence fails earlier.
    assert!(doc.is_err());

    let it = Status::parse("Invited").unwrap();
    assert!(it.is_invited);
}

#[test]
fn goal_without_progress_has_placeholder() {
    let doc = load_goal("Flagship", Some("[rust-lang/rust#42]"));
    let mut no_issue = load_goal("Flagship", Some("[rust-lang/rust#42]"));
    no_issue.metadata.tracking_issue = None;
    let table = format_goal_table(&vec![doc, no_issue]);
    assert_eq!(table[2][2], "(no tracking issue)");
}

#[test]
fn link_issue_rewrites_only_the_table_span() {
    let mut doc = load_goal("Proposed", None);
    // The document's source text, with the metadata table at chars 10..20.
    let content = "0123456789TTTTTTTTTTtrailing text";
    doc.metadata.table.span = Span { start: 10, end: 20 };
    let issue = IssueId::new(s("rust-lang"), s("rust"), s("99")).unwrap();
    let updated = doc.link_issue(&issue, content);
    assert!(updated.starts_with("0123456789"));
    assert!(updated.ends_with("trailing text"));
    assert!(updated.contains("| Tracking issue | [rust-lang/rust#99] |"));

    // Re-reading the rewritten table yields the linked issue.
    let parsed = IssueId::parse("[rust-lang/rust#99]").unwrap();
    assert_eq!(parsed.org, "rust-lang");
    assert_eq!(parsed.number, "99");
}

#[test]
fn link_issue_overwrites_existing_row() {
    let doc = load_goal("Accepted", Some("[rust-lang/rust#42]"));
    let content: String = std::iter::repeat('x').take(40).collect();
    let mut doc = doc;
    doc.metadata.table.span = Span { start: 5, end: 9 };
    let issue = IssueId::new(s("rust-lang"), s("rust"), s("100")).unwrap();
    let updated = doc.link_issue(&issue, &content);
    assert!(updated.contains("| Tracking issue | [rust-lang/rust#100] |"));
    assert!(!updated.contains("#42"));
}

#[test]
fn error_messages_name_the_offending_field_and_valid_sets() {
    let e = GoalError::MissingRow { key: s("Status") };
    assert_eq!(e.message(), "metadata table has no `Status` row");

    let e = GoalError::UnknownTeam { name: s("zzz"), valid: vec![s("lang"), s("compiler")] };
    assert_eq!(e.message(), "no team named `zzz` found (valid names are: lang, compiler)");

    let e = Status::parse("Banana").unwrap_err();
    assert_eq!(
        e.message(),
        "unrecognized status `Banana`, expected one of: Flagship, Accepted, Invited, \
         Proposed, Proposed for flagship, Proposed for mentorship, Not accepted",
    );
}

#[test]
fn team_names_may_contain_digits() {
    assert_eq!(extract_team_names("![Team] wg1, lang2024"), vec![s("wg1"), s("lang2024")]);
    let reg = TeamRegistry { names: vec![s("wg1")] };
    let it = item("t", "![Team] wg1", "");
    assert_eq!(it.teams_being_asked(&reg).unwrap(), vec![s("wg1")]);
}

#[test]
fn multiple_plan_tables_message_reports_count_and_headers() {
    let mut sec = plan_section(vec![]);
    sec.tables.push(plan_table(vec![]));
    let sections = vec![
        first_section(Some(metadata_table(standard_rows("Proposed", None)))),
        sec,
    ];
    let e = extract_plan_items(&sections).unwrap_err();
    let msg = e.message();
    assert!(msg.contains("multiple (2) goal tables in section `Ownership and team asks`:"));
    assert!(msg.contains("[Task, Owner(s) or team(s), Notes]"));
}

#[test]
fn empty_input_and_untitled_first_section_fail() {
    let e = extract_metadata(&vec![]).unwrap_err();
    assert!(matches!(e, GoalError::NoSections));

    let mut sec = first_section(Some(metadata_table(standard_rows("Proposed", None))));
    sec.title = String::new();
    let e = extract_metadata(&vec![sec]).unwrap_err();
    assert!(matches!(e, GoalError::UntitledFirstSection));
}

#[test]
fn plan_section_without_tables_yields_no_plan_items() {
    let mut empty_plan = plan_section(vec![]);
    empty_plan.tables.clear();
    let sections = vec![
        first_section(Some(metadata_table(standard_rows("Proposed", None)))),
        empty_plan,
    ];
    let e = extract_plan_items(&sections).unwrap_err();
    assert!(matches!(e, GoalError::NoPlanItems));
}

#[test]
fn plan_table_with_wrong_header_fails() {
    let mut sec = plan_section(vec![]);
    sec.tables[0].header = vec![s("Task"), s("Who"), s("Notes")];
    let sections = vec![
        first_section(Some(metadata_table(standard_rows("Proposed", None)))),
        sec,
    ];
    let e = extract_plan_items(&sections).unwrap_err();
    assert!(matches!(e, GoalError::WrongTableHeader { .. }));
}
