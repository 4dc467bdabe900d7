//! Plan items — the rows of a plan table — and their ownership
//! resolution: team asks versus individual task owners, and the
//! aggregation of validated team asks.

use vstd::prelude::*;
use crate::errors::GoalError;
use crate::idents::{
    TokenMode, tokens_of, first_username, split_tokens, find_username, ident_token_runs,
};
use crate::model::{Section, SectionView, sections_wf, headers_match, expect_headers};
use crate::registry::{TeamRegistry, Configuration, has_ask_spec};
use crate::text::{contains_sub, contains_str, trim_spec, trim, str_eq};

verus! {

/// The owners-cell token that marks a row as a team ask.
pub open spec fn team_marker() -> Seq<char> {
    "![Team]"@
}

/// The notes-cell token that marks a row as complete.
pub open spec fn complete_marker() -> Seq<char> {
    "![Complete]"@
}

/// The mathematical content of a `PlanItem`.
pub ghost struct PlanItemView {
    pub text: Seq<char>,
    pub owners: Seq<char>,
    pub notes: Seq<char>,
}

/// One row of a plan table: a task, its owner(s) or team(s), and notes.
#[derive(Debug, Clone)]
pub struct PlanItem {
    pub text: String,
    pub owners: String,
    pub notes: String,
}

impl View for PlanItem {
    type V = PlanItemView;

    open spec fn view(&self) -> PlanItemView {
        PlanItemView { text: self.text@, owners: self.owners@, notes: self.notes@ }
    }
}

impl DeepView for PlanItem {
    type V = PlanItemView;

    open spec fn deep_view(&self) -> PlanItemView {
        self.view()
    }
}

/// The identifier tokens of an owners cell with the team marker's word
/// dropped: the team names the cell mentions.
pub open spec fn filter_not_team(toks: Seq<Seq<char>>) -> Seq<Seq<char>>
    decreases toks.len(),
{
    if toks.len() == 0 {
        Seq::empty()
    } else {
        let rest = filter_not_team(toks.drop_first());
        if toks[0] == "Team"@ {
            rest
        } else {
            seq![toks[0]] + rest
        }
    }
}

/// The team names mentioned by an owners cell.
pub open spec fn team_names_spec(owners: Seq<char>) -> Seq<Seq<char>> {
    filter_not_team(tokens_of(TokenMode::Ident, owners))
}

/// Comma-separated pieces of an owners cell, trimmed, empties dropped.
pub open spec fn owners_clean(toks: Seq<Seq<char>>) -> Seq<Seq<char>>
    decreases toks.len(),
{
    if toks.len() == 0 {
        Seq::empty()
    } else {
        let t = trim_spec(toks[0]);
        let rest = owners_clean(toks.drop_first());
        if t.len() > 0 {
            seq![t] + rest
        } else {
            rest
        }
    }
}

/// The individual task owners of an owners cell, read as a
/// comma-separated list.
pub open spec fn task_owners_spec(owners: Seq<char>) -> Seq<Seq<char>> {
    owners_clean(tokens_of(TokenMode::Comma, owners))
}

/// The usernames found in the whitespace-separated tokens of `toks`.
pub open spec fn usernames_collect(toks: Seq<Seq<char>>) -> Seq<Seq<char>>
    decreases toks.len(),
{
    if toks.len() == 0 {
        Seq::empty()
    } else {
        let rest = usernames_collect(toks.drop_first());
        match first_username(toks[0]) {
            Some(u) => seq![u] + rest,
            None => rest,
        }
    }
}

/// The usernames found in a free-form owner listing.
pub open spec fn owner_usernames_spec(text: Seq<char>) -> Seq<Seq<char>> {
    usernames_collect(tokens_of(TokenMode::Whitespace, text))
}

/// `name` is the first of `names` that the registry does not resolve.
pub open spec fn first_unknown_team(
    names: Seq<Seq<char>>,
    reg: Seq<Seq<char>>,
    name: Seq<char>,
) -> bool {
    exists|i: int| 0 <= i < names.len() && names[i] == name && !reg.contains(name)
        && (forall|w: int| 0 <= w < i ==> reg.contains(#[trigger] names[w]))
}

fn filter_not_team_from(toks: &Vec<String>, i: usize) -> (r: Vec<String>)
    requires
        i <= toks.len(),
    ensures
        r.deep_view() == filter_not_team(toks.deep_view().skip(i as int)),
    decreases toks.len() - i,
{
    if i == toks.len() {
        let v: Vec<String> = Vec::new();
        proof {
            assert(toks.deep_view().skip(i as int) =~= Seq::<Seq<char>>::empty());
            assert(v.deep_view() =~= Seq::<Seq<char>>::empty());
        }
        v
    } else {
        proof {
            assert(toks.deep_view().skip(i as int)[0] == toks.deep_view()[i as int]);
            assert(toks.deep_view().skip(i as int).drop_first() =~= toks.deep_view().skip(
                i as int + 1));
            assert(toks.deep_view()[i as int] == toks@[i as int]@);
        }
        let rest = filter_not_team_from(toks, i + 1);
        if str_eq(toks[i].as_str(), "Team") {
            rest
        } else {
            let mut out: Vec<String> = Vec::new();
            let ghost hv = toks.deep_view()[i as int];
            out.push(toks[i].clone());
            let mut rest2 = rest;
            let ghost rv = rest2.deep_view();
            out.append(&mut rest2);
            proof {
                assert(out.deep_view().len() == 1 + rv.len());
                assert(out.deep_view()[0] == hv);
                assert(forall|k: int| 0 <= k < rv.len() ==> out.deep_view()[1 + k] == rv[k]);
                assert(out.deep_view() =~= seq![hv] + rv);
            }
            out
        }
    }
}

/// All word-like tokens of an owners cell except the team marker's word:
/// the team names the cell asks.
pub fn extract_team_names(s: &str) -> (r: Vec<String>)
    ensures
        r.deep_view() == team_names_spec(s@),
{
    let toks = ident_token_runs(s);
    proof {
        assert(toks.deep_view().skip(0) =~= toks.deep_view());
    }
    filter_not_team_from(&toks, 0)
}

fn owners_clean_from(toks: &Vec<String>, i: usize) -> (r: Vec<String>)
    requires
        i <= toks.len(),
    ensures
        r.deep_view() == owners_clean(toks.deep_view().skip(i as int)),
    decreases toks.len() - i,
{
    if i == toks.len() {
        let v: Vec<String> = Vec::new();
        proof {
            assert(toks.deep_view().skip(i as int) =~= Seq::<Seq<char>>::empty());
            assert(v.deep_view() =~= Seq::<Seq<char>>::empty());
        }
        v
    } else {
        proof {
            assert(toks.deep_view().skip(i as int)[0] == toks.deep_view()[i as int]);
            assert(toks.deep_view().skip(i as int).drop_first() =~= toks.deep_view().skip(
                i as int + 1));
            assert(toks.deep_view()[i as int] == toks@[i as int]@);
        }
        let rest = owners_clean_from(toks, i + 1);
        let t = trim(toks[i].as_str());
        if t.as_str().unicode_len() > 0 {
            let mut out: Vec<String> = Vec::new();
            let ghost hv = t@;
            out.push(t);
            let mut rest2 = rest;
            let ghost rv = rest2.deep_view();
            out.append(&mut rest2);
            proof {
                assert(out.deep_view().len() == 1 + rv.len());
                assert(out.deep_view()[0] == hv);
                assert(forall|k: int| 0 <= k < rv.len() ==> out.deep_view()[1 + k] == rv[k]);
                assert(out.deep_view() =~= seq![hv] + rv);
            }
            out
        } else {
            rest
        }
    }
}

fn usernames_from(toks: &Vec<String>, i: usize) -> (r: Vec<String>)
    requires
        i <= toks.len(),
    ensures
        r.deep_view() == usernames_collect(toks.deep_view().skip(i as int)),
    decreases toks.len() - i,
{
    if i == toks.len() {
        let v: Vec<String> = Vec::new();
        proof {
            assert(toks.deep_view().skip(i as int) =~= Seq::<Seq<char>>::empty());
            assert(v.deep_view() =~= Seq::<Seq<char>>::empty());
        }
        v
    } else {
        proof {
            assert(toks.deep_view().skip(i as int)[0] == toks.deep_view()[i as int]);
            assert(toks.deep_view().skip(i as int).drop_first() =~= toks.deep_view().skip(
                i as int + 1));
            assert(toks.deep_view()[i as int] == toks@[i as int]@);
        }
        let rest = usernames_from(toks, i + 1);
        match find_username(toks[i].as_str()) {
            Some(u) => {
                let mut out: Vec<String> = Vec::new();
                let ghost hv = u@;
                out.push(u);
                let mut rest2 = rest;
                let ghost rv = rest2.deep_view();
                out.append(&mut rest2);
                proof {
                    assert(out.deep_view().len() == 1 + rv.len());
                    assert(out.deep_view()[0] == hv);
                    assert(forall|k: int| 0 <= k < rv.len() ==> out.deep_view()[1 + k] == rv[k]);
                    assert(out.deep_view() =~= seq![hv] + rv);
                }
                out
            },
            None => rest,
        }
    }
}

/// The usernames found in a free-form owner listing: each
/// whitespace-separated token contributes its first username, if any.
pub fn owner_usernames(text: &str) -> (r: Vec<String>)
    ensures
        r.deep_view() == owner_usernames_spec(text@),
{
    let toks = split_tokens(TokenMode::Whitespace, text);
    proof {
        assert(toks.deep_view().skip(0) =~= toks.deep_view());
    }
    usernames_from(&toks, 0)
}

/// The owners of a plan item: teams when it is a team ask, usernames
/// otherwise.
#[derive(Debug)]
pub enum ParsedOwners {
    TeamAsks(Vec<String>),
    Usernames(Vec<String>),
}

impl PlanItem {
    /// True if the item's notes mark it as completed.
    pub fn is_complete(&self) -> (r: bool)
        ensures
            r == contains_sub(self@.notes, complete_marker()),
    {
        contains_str(self.notes.as_str(), "![Complete]")
    }

    /// True if this item is asked of a team; false if the goal owners
    /// propose to do it themselves.
    pub fn is_team_ask(&self) -> (r: bool)
        ensures
            r == contains_sub(self@.owners, team_marker()),
    {
        contains_str(self.owners.as_str(), "![Team]")
    }

    /// The teams being asked by this item: empty when the item is not a
    /// team ask; otherwise the owners cell's team names, each of which
    /// must be in the registry, and at least one of which must exist.
    pub fn teams_being_asked(&self, registry: &TeamRegistry) -> (r: Result<
        Vec<String>,
        GoalError,
    >)
        ensures
            match r {
                Ok(teams) => {
                    &&& !contains_sub(self@.owners, team_marker())
                        ==> teams.deep_view() == Seq::<Seq<char>>::empty()
                    &&& contains_sub(self@.owners, team_marker()) ==> {
                        &&& teams.deep_view() == team_names_spec(self@.owners)
                        &&& teams.deep_view().len() > 0
                        &&& forall|k: int| 0 <= k < teams.deep_view().len()
                            ==> registry@.contains(#[trigger] teams.deep_view()[k])
                    }
                },
                Err(e) => contains_sub(self@.owners, team_marker()) && match e {
                    GoalError::UnknownTeam { name, valid } => valid.deep_view() == registry@
                        && first_unknown_team(team_names_spec(self@.owners), registry@, name@),
                    GoalError::NoTeamsListed { task } => team_names_spec(self@.owners).len() == 0
                        && task@ == self@.text,
                    _ => false,
                },
            },
    {
        if !self.is_team_ask() {
            let v: Vec<String> = Vec::new();
            proof {
                assert(v.deep_view() =~= Seq::<Seq<char>>::empty());
            }
            return Ok(v);
        }
        let names = extract_team_names(self.owners.as_str());
        let mut i: usize = 0;
        while i < names.len()
            invariant
                0 <= i <= names.len(),
                contains_sub(self@.owners, team_marker()),
                names.deep_view() == team_names_spec(self@.owners),
                forall|k: int| 0 <= k < i ==> registry@.contains(
                    #[trigger] names.deep_view()[k]),
            decreases names.len() - i,
        {
            proof {
                assert(names.deep_view()[i as int] == names@[i as int]@);
            }
            if !registry.has_team(names[i].as_str()) {
                proof {
                    assert(names.deep_view()[i as int] == names@[i as int]@);
                    assert(first_unknown_team(names.deep_view(), registry@,
                        names.deep_view()[i as int]));
                }
                return Err(GoalError::UnknownTeam {
                    name: names[i].clone(),
                    valid: crate::model::clone_cells(&registry.names),
                });
            }
            i = i + 1;
        }
        proof {
            assert(names.deep_view().len() == names.len());
        }
        if names.len() == 0 {
            return Err(GoalError::NoTeamsListed { task: self.text.clone() });
        }
        Ok(names)
    }

    /// The usernames of individual task owners: empty for a team ask,
    /// otherwise the comma-separated pieces of the owners cell.
    pub fn task_owners(&self) -> (r: Vec<String>)
        ensures
            r.deep_view() == if contains_sub(self@.owners, team_marker()) {
                Seq::<Seq<char>>::empty()
            } else {
                task_owners_spec(self@.owners)
            },
    {
        if self.is_team_ask() {
            let v: Vec<String> = Vec::new();
            proof {
                assert(v.deep_view() =~= Seq::<Seq<char>>::empty());
            }
            return v;
        }
        let toks = split_tokens(TokenMode::Comma, self.owners.as_str());
        proof {
            assert(toks.deep_view().skip(0) =~= toks.deep_view());
        }
        owners_clean_from(&toks, 0)
    }

    /// Parse the owners cell: absent when empty, the asked teams for a
    /// team ask, the comma-separated usernames otherwise.
    pub fn parse_owners(&self, registry: &TeamRegistry) -> (r: Result<
        Option<ParsedOwners>,
        GoalError,
    >)
        ensures
            match r {
                Ok(po) => match po {
                    None => self@.owners.len() == 0,
                    Some(ParsedOwners::TeamAsks(ts)) => self@.owners.len() > 0 && contains_sub(
                        self@.owners,
                        team_marker(),
                    ) && ts.deep_view() == team_names_spec(self@.owners) && ts.deep_view().len()
                        > 0,
                    Some(ParsedOwners::Usernames(us)) => self@.owners.len() > 0 && !contains_sub(
                        self@.owners,
                        team_marker(),
                    ) && us.deep_view() == task_owners_spec(self@.owners),
                },
                Err(e) => contains_sub(self@.owners, team_marker()) && match e {
                    GoalError::UnknownTeam { name, valid } => valid.deep_view() == registry@
                        && first_unknown_team(team_names_spec(self@.owners), registry@, name@),
                    GoalError::NoTeamsListed { task } => team_names_spec(self@.owners).len() == 0
                        && task@ == self@.text,
                    _ => false,
                },
            },
    {
        if self.owners.as_str().unicode_len() == 0 {
            Ok(None)
        } else if self.is_team_ask() {
            match self.teams_being_asked(registry) {
                Ok(teams) => Ok(Some(ParsedOwners::TeamAsks(teams))),
                Err(e) => Err(e),
            }
        } else {
            Ok(Some(ParsedOwners::Usernames(self.task_owners())))
        }
    }
}

/// The mathematical content of a `TeamAsk`.
pub ghost struct TeamAskView {
    pub link_path: Seq<char>,
    pub ask_description: Seq<char>,
    pub goal_titles: Seq<Seq<char>>,
    pub teams: Seq<Seq<char>>,
    pub owners: Seq<char>,
    pub notes: Seq<char>,
}

/// One validated, cross-referenceable ask of a set of teams.
#[derive(Debug, Clone)]
pub struct TeamAsk {
    /// Path of the document holding this ask, suitable for links.
    pub link_path: String,
    /// What the teams are asked for.
    pub ask_description: String,
    /// The goal's title, then the subgoal's title if the ask came from
    /// a subsection.
    pub goal_titles: Vec<String>,
    /// The names of the teams being asked.
    pub teams: Vec<String>,
    /// The owners of the goal the ask belongs to.
    pub owners: String,
    pub notes: String,
}

impl View for TeamAsk {
    type V = TeamAskView;

    open spec fn view(&self) -> TeamAskView {
        TeamAskView {
            link_path: self.link_path@,
            ask_description: self.ask_description@,
            goal_titles: self.goal_titles.deep_view(),
            teams: self.teams.deep_view(),
            owners: self.owners@,
            notes: self.notes@,
        }
    }
}

impl DeepView for TeamAsk {
    type V = TeamAskView;

    open spec fn deep_view(&self) -> TeamAskView {
        self.view()
    }
}

impl PlanItem {
    /// The team asks this item contributes: none unless it is a team
    /// ask; for a team ask, its task text must be a recognized ask
    /// phrase, and one `TeamAsk` carrying the resolved teams is emitted.
    pub fn team_asks(
        &self,
        link_path: &String,
        goal_titles: &Vec<String>,
        goal_owners: &str,
        registry: &TeamRegistry,
        config: &Configuration,
    ) -> (r: Result<Vec<TeamAsk>, GoalError>)
        ensures
            match r {
                Ok(asks) => {
                    &&& !contains_sub(self@.owners, team_marker()) ==> asks.deep_view().len()
                        == 0
                    &&& contains_sub(self@.owners, team_marker()) ==> {
                        &&& has_ask_spec(config@, self@.text)
                        &&& asks.deep_view().len() == 1
                        &&& asks.deep_view()[0] == (TeamAskView {
                            link_path: link_path@,
                            ask_description: self@.text,
                            goal_titles: goal_titles.deep_view(),
                            teams: team_names_spec(self@.owners),
                            owners: goal_owners@,
                            notes: self@.notes,
                        })
                        &&& team_names_spec(self@.owners).len() > 0
                        &&& forall|k: int| 0 <= k < team_names_spec(self@.owners).len()
                            ==> registry@.contains(#[trigger] team_names_spec(self@.owners)[k])
                    }
                },
                Err(e) => contains_sub(self@.owners, team_marker()) && match e {
                    GoalError::UnknownTeam { name, valid } => valid.deep_view() == registry@
                        && first_unknown_team(team_names_spec(self@.owners), registry@, name@),
                    GoalError::NoTeamsListed { task } => team_names_spec(self@.owners).len() == 0
                        && task@ == self@.text,
                    GoalError::UnrecognizedAsk { task, valid } => task@ == self@.text
                        && !has_ask_spec(config@, self@.text) && valid.deep_view() == config@
                        && team_names_spec(self@.owners).len() > 0
                        && (forall|t: int| 0 <= t < team_names_spec(self@.owners).len()
                            ==> registry@.contains(#[trigger] team_names_spec(self@.owners)[t])),
                    _ => false,
                },
            },
    {
        let teams = match self.teams_being_asked(registry) {
            Ok(ts) => ts,
            Err(e) => {
                return Err(e);
            },
        };
        if teams.len() == 0 {
            proof {
                assert(teams.deep_view().len() == teams.len());
            }
            let v: Vec<TeamAsk> = Vec::new();
            proof {
                assert(v.deep_view().len() == 0);
            }
            return Ok(v);
        }
        proof {
            assert(teams.deep_view().len() == teams.len());
        }
        if !config.has_ask(self.text.as_str()) {
            return Err(GoalError::UnrecognizedAsk {
                task: self.text.clone(),
                valid: crate::registry::clone_entries(&config.team_asks),
            });
        }
        let ask = TeamAsk {
            link_path: link_path.clone(),
            ask_description: self.text.clone(),
            goal_titles: crate::model::clone_cells(goal_titles),
            teams,
            owners: goal_owners.to_owned(),
            notes: self.notes.clone(),
        };
        let ghost av = ask@;
        let mut out: Vec<TeamAsk> = Vec::new();
        out.push(ask);
        proof {
            assert(out.deep_view().len() == 1);
            assert(out.deep_view()[0] == av);
        }
        Ok(out)
    }
}

/// The title of the section holding the plan tables.
pub open spec fn plan_section_title() -> Seq<char> {
    "Ownership and team asks"@
}

/// The required header of every plan table.
pub open spec fn plan_header() -> Seq<Seq<char>> {
    seq!["Task"@, "Owner(s) or team(s)"@, "Notes"@]
}

/// The mathematical content of a `GoalPlan`.
pub ghost struct GoalPlanView {
    pub subgoal: Option<Seq<char>>,
    pub plan_items: Seq<PlanItemView>,
}

/// One plan table's worth of items, optionally scoped to a subsection.
#[derive(Debug, Clone)]
pub struct GoalPlan {
    /// If present, the title of the subsection the items were found in.
    pub subgoal: Option<String>,
    /// The items of the table, in row order.
    pub plan_items: Vec<PlanItem>,
}

/// The view of an optional owned string.
pub open spec fn opt_view(o: Option<String>) -> Option<Seq<char>> {
    match o {
        Some(s) => Some(s@),
        None => None,
    }
}

impl View for GoalPlan {
    type V = GoalPlanView;

    open spec fn view(&self) -> GoalPlanView {
        GoalPlanView { subgoal: opt_view(self.subgoal), plan_items: self.plan_items.deep_view() }
    }
}

impl DeepView for GoalPlan {
    type V = GoalPlanView;

    open spec fn deep_view(&self) -> GoalPlanView {
        self.view()
    }
}

/// The plan items read off a table's rows, in row order.
pub open spec fn items_of_rows(rows: Seq<Seq<Seq<char>>>) -> Seq<PlanItemView> {
    Seq::new(
        rows.len(),
        |i: int| PlanItemView { text: rows[i][0], owners: rows[i][1], notes: rows[i][2] },
    )
}

/// The plan read off a section holding exactly one plan table.
pub open spec fn plan_view(s: SectionView, subgoal: Option<Seq<char>>) -> GoalPlanView {
    GoalPlanView { subgoal, plan_items: items_of_rows(s.tables[0].rows) }
}

/// One plan item from one table row.
pub fn extract_plan_item(row: &Vec<String>) -> (r: PlanItem)
    requires
        row.deep_view().len() >= 3,
    ensures
        r@ == (PlanItemView {
            text: row.deep_view()[0],
            owners: row.deep_view()[1],
            notes: row.deep_view()[2],
        }),
{
    proof {
        assert(row.deep_view()[0] == row@[0]@);
        assert(row.deep_view()[1] == row@[1]@);
        assert(row.deep_view()[2] == row@[2]@);
    }
    PlanItem { text: row[0].clone(), owners: row[1].clone(), notes: row[2].clone() }
}

/// The plan of one section: nothing without a table; the single table's
/// rows when its header is the plan header; ambiguous with several
/// tables.
pub fn goal_plan(subgoal: Option<String>, section: &Section) -> (r: Result<
    Option<GoalPlan>,
    GoalError,
>)
    requires
        section@.wf(),
    ensures
        match r {
            Ok(og) => match og {
                None => section@.tables.len() == 0,
                Some(gp) => section@.tables.len() == 1
                    && headers_match(section@.tables[0], plan_header())
                    && gp@ == plan_view(section@, opt_view(subgoal)),
            },
            Err(e) => match e {
                GoalError::WrongTableHeader { expected, found } => section@.tables.len() == 1
                    && !headers_match(section@.tables[0], plan_header())
                    && expected.deep_view() == plan_header()
                    && found.deep_view() == section@.tables[0].header,
                GoalError::MultiplePlanTables { section_title, count, headers } =>
                    section@.tables.len() > 1 && section_title@ == section@.title
                    && count == section@.tables.len()
                    && headers.deep_view().len() == section@.tables.len()
                    && (forall|i: int| 0 <= i < section@.tables.len()
                        ==> headers.deep_view()[i] == (#[trigger] section@.tables[i]).header),
                _ => false,
            },
        },
{
    if section.tables.len() == 0 {
        return Ok(None);
    }
    if section.tables.len() > 1 {
        let mut headers: Vec<Vec<String>> = Vec::new();
        let mut i: usize = 0;
        while i < section.tables.len()
            invariant
                0 <= i <= section.tables.len(),
                headers.len() == i,
                forall|w: int| 0 <= w < i ==> headers.deep_view()[w]
                    == (#[trigger] section@.tables[w]).header,
            decreases section.tables.len() - i,
        {
            proof {
                assert(section@.tables[i as int] == section.tables@[i as int]@);
            }
            let ghost prev = headers.deep_view();
            headers.push(crate::model::clone_cells(&section.tables[i].header));
            proof {
                assert(headers.deep_view().len() == i + 1);
                assert(forall|w: int| 0 <= w < i ==> headers.deep_view()[w] == prev[w]);
                assert(headers.deep_view()[i as int] == section@.tables[i as int].header);
            }
            i = i + 1;
        }
        proof {
            assert(headers.deep_view().len() == section@.tables.len());
        }
        return Err(GoalError::MultiplePlanTables {
            section_title: section.title.clone(),
            count: section.tables.len(),
            headers,
        });
    }
    let table = &section.tables[0];
    proof {
        assert(section@.tables[0] == section.tables@[0]@);
        assert((&["Task", "Owner(s) or team(s)", "Notes"]).deep_view() =~= plan_header());
    }
    match expect_headers(table, &["Task", "Owner(s) or team(s)", "Notes"]) {
        Err(e) => Err(e),
        Ok(()) => {
            let mut plan_items: Vec<PlanItem> = Vec::new();
            let mut i: usize = 0;
            proof {
                assert(table@.header.len() == 3);
            }
            while i < table.rows.len()
                invariant
                    0 <= i <= table.rows.len(),
                    section@.wf(),
                    section@.tables.len() == 1,
                    *table == section.tables[0],
                    table@ == section@.tables[0],
                    table@.header.len() == 3,
                    plan_items.len() == i,
                    plan_items.deep_view() =~= items_of_rows(table@.rows).take(i as int),
                decreases table.rows.len() - i,
            {
                proof {
                    assert(table@.rows[i as int] == table.rows@[i as int].deep_view());
                    assert(table@.rows[i as int].len() == table@.header.len());
                }
                let item = extract_plan_item(&table.rows[i]);
                plan_items.push(item);
                proof {
                    assert(plan_items.deep_view() =~= items_of_rows(table@.rows).take(
                        i as int + 1));
                }
                i = i + 1;
            }
            proof {
                assert(plan_items.deep_view() =~= items_of_rows(table@.rows));
            }
            Ok(Some(GoalPlan { subgoal, plan_items }))
        },
    }
}

/// The index right after the run of subsections of a section at nesting
/// level `base`: the first index at or past `k` whose section is at
/// `base` or shallower, or the section count when none is.
pub open spec fn subsection_end(sections: Seq<SectionView>, k: int, base: nat) -> int
    decreases sections.len() - k,
{
    if k < 0 || k >= sections.len() || sections[k].level <= base {
        k
    } else {
        subsection_end(sections, k + 1, base)
    }
}

/// The outcome of reading plan tables out of a run of sections: the
/// plans, or the index of the first section with too many tables, or
/// the index of the first plan table with a wrong header.
pub ghost enum PlanScan {
    Plans(Seq<GoalPlanView>),
    TooMany(int),
    BadHeader(int),
}

/// Read the plans of sections `k .. end`; the section at `oi` (the plan
/// section itself) yields an unscoped plan, every other section a plan
/// scoped to its own title.
pub open spec fn scan_plans(sections: Seq<SectionView>, oi: int, k: int, end: int) -> PlanScan
    decreases end - k,
{
    if k < 0 || k >= end {
        PlanScan::Plans(Seq::empty())
    } else {
        let s = sections[k];
        if s.tables.len() == 0 {
            scan_plans(sections, oi, k + 1, end)
        } else if s.tables.len() == 1 {
            if headers_match(s.tables[0], plan_header()) {
                match scan_plans(sections, oi, k + 1, end) {
                    PlanScan::Plans(ps) => PlanScan::Plans(
                        seq![
                            plan_view(s, if k == oi { None } else { Some(s.title) }),
                        ] + ps,
                    ),
                    other => other,
                }
            } else {
                PlanScan::BadHeader(k)
            }
        } else {
            PlanScan::TooMany(k)
        }
    }
}

/// Index of the first section titled `title`.
pub fn find_section_index(sections: &Vec<Section>, title: &str, from: usize) -> (r: Option<
    usize,
>)
    requires
        from <= sections.len(),
    ensures
        match r {
            Some(i) => from <= i < sections.len()
                && sections.deep_view()[i as int].title == title@
                && forall|k: int| from <= k < i
                    ==> (#[trigger] sections.deep_view()[k]).title != title@,
            None => forall|k: int| from <= k < sections.len()
                ==> (#[trigger] sections.deep_view()[k]).title != title@,
        },
    decreases sections.len() - from,
{
    if from == sections.len() {
        return None;
    }
    proof {
        assert(sections.deep_view()[from as int] == sections@[from as int]@);
    }
    if str_eq(sections[from].title.as_str(), title) {
        Some(from)
    } else {
        find_section_index(sections, title, from + 1)
    }
}

/// First index of the plan section, the one titled
/// `Ownership and team asks`.
pub open spec fn plan_section_index(sections: Seq<SectionView>) -> Option<int>
    decreases sections.len(),
{
    if sections.len() == 0 {
        None
    } else if sections[0].title == plan_section_title() {
        Some(0)
    } else {
        match plan_section_index(sections.drop_first()) {
            None => None,
            Some(i) => Some(i + 1),
        }
    }
}

proof fn lemma_plan_section_index_first(sections: Seq<SectionView>, i: int)
    requires
        0 <= i < sections.len(),
        sections[i].title == plan_section_title(),
        forall|k: int| 0 <= k < i ==> (#[trigger] sections[k]).title != plan_section_title(),
    ensures
        plan_section_index(sections) == Some(i),
    decreases i,
{
    if i > 0 {
        let t = sections.drop_first();
        assert(forall|k: int| 0 <= k < i - 1 ==> (#[trigger] t[k]).title != plan_section_title());
        lemma_plan_section_index_first(t, i - 1);
    }
}

proof fn lemma_plan_section_index_none(sections: Seq<SectionView>)
    requires
        forall|k: int| 0 <= k < sections.len()
            ==> (#[trigger] sections[k]).title != plan_section_title(),
    ensures
        plan_section_index(sections) is None,
    decreases sections.len(),
{
    if sections.len() > 0 {
        let t = sections.drop_first();
        assert(forall|k: int| 0 <= k < t.len() ==> (#[trigger] t[k]).title != plan_section_title());
        lemma_plan_section_index_none(t);
    }
}

/// Exactly when each plan-extraction error is raised.
pub open spec fn plans_err(deep: Seq<SectionView>, e: GoalError) -> bool {
    match e {
        GoalError::MissingPlanSection => plan_section_index(deep) is None,
        GoalError::NoPlanItems => plan_section_index(deep) matches Some(oi) && ({
            let end = subsection_end(deep, oi + 1, deep[oi].level);
            scan_plans(deep, oi, oi, end) == PlanScan::Plans(Seq::empty())
        }),
        GoalError::WrongTableHeader { expected, found } => plan_section_index(deep)
            matches Some(oi) && ({
            let end = subsection_end(deep, oi + 1, deep[oi].level);
            &&& scan_plans(deep, oi, oi, end) matches PlanScan::BadHeader(b)
            &&& expected.deep_view() == plan_header()
            &&& found.deep_view() == deep[b].tables[0].header
        }),
        GoalError::MultiplePlanTables { section_title, count, headers } =>
            plan_section_index(deep) matches Some(oi) && ({
            let end = subsection_end(deep, oi + 1, deep[oi].level);
            &&& scan_plans(deep, oi, oi, end) matches PlanScan::TooMany(t)
            &&& section_title@ == deep[t].title
            &&& count == deep[t].tables.len()
            &&& headers.deep_view().len() == deep[t].tables.len()
            &&& forall|i: int| 0 <= i < deep[t].tables.len()
                ==> headers.deep_view()[i] == (#[trigger] deep[t].tables[i]).header
        }),
        _ => false,
    }
}

/// What successfully extracted plans say of their document: a plan
/// section exists, scanning it and its subsections yields exactly these
/// plans, and there is at least one.
pub open spec fn plans_ok(deep: Seq<SectionView>, plans: Seq<GoalPlanView>) -> bool {
    plan_section_index(deep) matches Some(oi) && ({
        let end = subsection_end(deep, oi + 1, deep[oi].level);
        &&& scan_plans(deep, oi, oi, end) == PlanScan::Plans(plans)
        &&& plans.len() > 0
    })
}

/// Extract every plan of the plan section and its subsections: the plan
/// section itself, then each immediately-following deeper section, up to
/// the first sibling or shallower section.
pub fn extract_plan_items(sections: &Vec<Section>) -> (r: Result<Vec<GoalPlan>, GoalError>)
    requires
        sections_wf(sections.deep_view()),
    ensures
        ({
            let deep = sections.deep_view();
            match r {
                Ok(plans) => plans_ok(deep, plans.deep_view()),
                Err(e) => plans_err(deep, e),
            }
        }),
{
    let ghost deep = sections.deep_view();
    let Some(oi) = find_section_index(sections, "Ownership and team asks", 0) else {
        proof {
            lemma_plan_section_index_none(deep);
        }
        return Err(GoalError::MissingPlanSection);
    };
    proof {
        lemma_plan_section_index_first(deep, oi as int);
    }
    let base = sections[oi].level;
    let ghost end = subsection_end(deep, oi as int + 1, base as nat);
    proof {
        assert(deep[oi as int] == sections@[oi as int]@);
        assert(deep[oi as int].level == base as nat);
        lemma_subsection_end_bounds(deep, oi as int + 1, base as nat);
    }

    let mut plans: Vec<GoalPlan> = Vec::new();
    match goal_plan(None, &sections[oi]) {
        Err(e) => {
            proof {
                assert(deep[oi as int] == sections@[oi as int]@);
                assert(oi < end);
                match e {
                    GoalError::WrongTableHeader { .. } => {
                        assert(scan_plans(deep, oi as int, oi as int, end)
                            == PlanScan::BadHeader(oi as int));
                    },
                    GoalError::MultiplePlanTables { .. } => {
                        assert(scan_plans(deep, oi as int, oi as int, end)
                            == PlanScan::TooMany(oi as int));
                    },
                    _ => {},
                }
            }
            return Err(e);
        },
        Ok(Some(gp)) => {
            let ghost gv = gp@;
            plans.push(gp);
            proof {
                assert(deep[oi as int] == sections@[oi as int]@);
                assert(oi < end);
                assert(plans.deep_view() =~= seq![gv]);
                match scan_plans(deep, oi as int, oi as int + 1, end) {
                    PlanScan::Plans(ps) => {
                        assert(seq![gv] + ps =~= plans.deep_view() + ps);
                    },
                    _ => {},
                }
            }
        },
        Ok(None) => {
            proof {
                assert(deep[oi as int] == sections@[oi as int]@);
                assert(oi < end);
                assert(plans.deep_view() =~= Seq::<GoalPlanView>::empty());
                match scan_plans(deep, oi as int, oi as int + 1, end) {
                    PlanScan::Plans(ps) => {
                        assert(Seq::<GoalPlanView>::empty() + ps =~= plans.deep_view() + ps);
                    },
                    _ => {},
                }
            }
        },
    }
    let mut k: usize = oi + 1;
    while k < sections.len() && sections[k].level > base
        invariant
            oi < k <= sections.len(),
            deep == sections.deep_view(),
            sections_wf(deep),
            plan_section_index(deep) == Some(oi as int),
            deep[oi as int].level == base as nat,
            end == subsection_end(deep, oi as int + 1, base as nat),
            oi as int + 1 <= end <= deep.len(),
            k as int <= end,
            subsection_end(deep, k as int, base as nat) == end,
            scan_plans(deep, oi as int, oi as int, end) == (match scan_plans(
                deep, oi as int, k as int, end,
            ) {
                PlanScan::Plans(ps) => PlanScan::Plans(plans.deep_view() + ps),
                other => other,
            }),
        decreases sections.len() - k,
    {
        proof {
            assert(deep[k as int] == sections@[k as int]@);
            assert(deep[k as int].level > base as nat);
            lemma_subsection_end_bounds(deep, k as int + 1, base as nat);
            assert(subsection_end(deep, k as int, base as nat) == subsection_end(
                deep, k as int + 1, base as nat));
            assert(k < end);
        }
        let section = &sections[k];
        match goal_plan(Some(section.title.clone()), section) {
            Err(e) => {
                proof {
                    let sc = scan_plans(deep, oi as int, k as int, end);
                    match e {
                        GoalError::WrongTableHeader { .. } => {
                            assert(sc == PlanScan::BadHeader(k as int));
                        },
                        GoalError::MultiplePlanTables { .. } => {
                            assert(sc == PlanScan::TooMany(k as int));
                        },
                        _ => {},
                    }
                }
                return Err(e);
            },
            Ok(Some(gp)) => {
                let ghost gv = gp@;
                proof {
                    assert(scan_plans(deep, oi as int, k as int, end) == (match scan_plans(
                        deep, oi as int, k as int + 1, end,
                    ) {
                        PlanScan::Plans(ps) => PlanScan::Plans(seq![gv] + ps),
                        other => other,
                    }));
                }
                let ghost pv = plans.deep_view();
                plans.push(gp);
                proof {
                    match scan_plans(deep, oi as int, k as int + 1, end) {
                        PlanScan::Plans(ps) => {
                            assert(pv + (seq![gv] + ps) =~= plans.deep_view() + ps);
                        },
                        _ => {},
                    }
                }
            },
            Ok(None) => {
                proof {
                    assert(scan_plans(deep, oi as int, k as int, end) == scan_plans(
                        deep, oi as int, k as int + 1, end));
                }
            },
        }
        k = k + 1;
    }
    proof {
        if (k as int) < end {
            assert(deep[k as int] == sections@[k as int]@);
            assert(subsection_end(deep, k as int, base as nat) == k as int);
            assert(false);
        }
        assert(k as int == end);
        assert(scan_plans(deep, oi as int, k as int, end) == PlanScan::Plans(
            Seq::<GoalPlanView>::empty()));
        assert(plans.deep_view() + Seq::<GoalPlanView>::empty() =~= plans.deep_view());
    }
    if plans.len() == 0 {
        proof {
            assert(plans.deep_view() =~= Seq::<GoalPlanView>::empty());
        }
        return Err(GoalError::NoPlanItems);
    }
    proof {
        assert(plans.deep_view().len() == plans.len());
    }
    Ok(plans)
}

proof fn lemma_subsection_end_bounds(sections: Seq<SectionView>, k: int, base: nat)
    requires
        0 <= k <= sections.len(),
    ensures
        k <= subsection_end(sections, k, base) <= sections.len(),
    decreases sections.len() - k,
{
    if !(k >= sections.len() || sections[k].level <= base) {
        lemma_subsection_end_bounds(sections, k + 1, base);
    }
}

} // verus!
