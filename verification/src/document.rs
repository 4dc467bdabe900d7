//! The goal-document aggregator: composes metadata extraction, summary
//! lookup, plan extraction and team-ask aggregation into one record per
//! source document, and enforces the document-level invariant that an
//! accepted or proposed goal asks something of some team.

use vstd::prelude::*;
use crate::errors::GoalError;
use crate::metadata::{Metadata, MetadataView, metadata_ok, metadata_err, extract_metadata};
use crate::model::{Section, SectionView, sections_wf};
use crate::order::{sorted_lex, no_dups, insert_sorted};
use crate::plan::{
    GoalPlan, GoalPlanView, PlanItemView, TeamAsk, TeamAskView, plans_ok, plans_err,
    extract_plan_items, team_marker, team_names_spec, task_owners_spec, first_unknown_team,
};
use crate::registry::{TeamRegistry, Configuration, AskEntryView, has_ask_spec};
use crate::status::AcceptanceStatus;
use crate::text::{contains_sub, trim_spec, trim};

verus! {

/// Some ask of the list asks team `y`.
pub open spec fn team_in_asks(asks: Seq<TeamAskView>, y: Seq<char>) -> bool {
    exists|k: int| 0 <= k < asks.len() && (#[trigger] asks[k]).teams.contains(y)
}

/// Some item of the list names `y` among its individual task owners.
pub open spec fn owner_in_items(items: Seq<PlanItemView>, y: Seq<char>) -> bool {
    exists|j: int| 0 <= j < items.len() && !contains_sub((#[trigger] items[j]).owners,
        team_marker()) && task_owners_spec(items[j].owners).contains(y)
}

/// Some plan item of the plans names `y` among its individual task
/// owners.
pub open spec fn owner_in_plans(plans: Seq<GoalPlanView>, y: Seq<char>) -> bool {
    exists|k: int| 0 <= k < plans.len() && owner_in_items((#[trigger] plans[k]).plan_items, y)
}

/// The summary of a document: the first `Summary` section's trimmed
/// text; absent when no such section exists.
pub open spec fn summary_of(deep: Seq<SectionView>) -> Option<Seq<char>>
    decreases deep.len(),
{
    if deep.len() == 0 {
        None
    } else if deep[0].title == "Summary"@ {
        Some(trim_spec(deep[0].text))
    } else {
        summary_of(deep.drop_first())
    }
}

/// The trimmed text of the first section titled `Summary`, if any.
pub fn extract_summary(sections: &Vec<Section>) -> (r: Result<Option<String>, GoalError>)
    ensures
        match r {
            Ok(Some(s)) => summary_of(sections.deep_view()) == Some(s@),
            Ok(None) => summary_of(sections.deep_view()) is None,
            Err(_) => false,
        },
{
    proof {
        assert(sections.deep_view().skip(0) =~= sections.deep_view());
    }
    match extract_summary_from(sections, 0) {
        Some(s) => Ok(Some(s)),
        None => Ok(None),
    }
}

fn extract_summary_from(sections: &Vec<Section>, from: usize) -> (r: Option<String>)
    requires
        from <= sections.len(),
    ensures
        match r {
            Some(s) => summary_of(sections.deep_view().skip(from as int)) == Some(s@),
            None => summary_of(sections.deep_view().skip(from as int)) is None,
        },
    decreases sections.len() - from,
{
    let ghost deep = sections.deep_view();
    if from == sections.len() {
        proof {
            assert(deep.skip(from as int) =~= Seq::<SectionView>::empty());
        }
        return None;
    }
    proof {
        assert(deep.skip(from as int)[0] == deep[from as int]);
        assert(deep.skip(from as int).drop_first() =~= deep.skip(from as int + 1));
        assert(deep[from as int] == sections@[from as int]@);
    }
    if crate::text::str_eq(sections[from].title.as_str(), "Summary") {
        Some(trim(sections[from].text.as_str()))
    } else {
        extract_summary_from(sections, from + 1)
    }
}

/// The union, over all non-team-ask plan items, of their owner
/// usernames: sorted, without duplicates.
fn collect_task_owners(goal_plans: &Vec<GoalPlan>) -> (r: Vec<String>)
    ensures
        sorted_lex(r.deep_view()),
        no_dups(r.deep_view()),
        forall|y: Seq<char>| r.deep_view().contains(y) <==> owner_in_plans(
            goal_plans.deep_view(), y),
{
    let ghost plans = goal_plans.deep_view();
    let mut out: Vec<String> = Vec::new();
    let mut k: usize = 0;
    while k < goal_plans.len()
        invariant
            0 <= k <= goal_plans.len(),
            plans == goal_plans.deep_view(),
            sorted_lex(out.deep_view()),
            no_dups(out.deep_view()),
            forall|y: Seq<char>| out.deep_view().contains(y) <==> owner_in_plans(
                plans.take(k as int), y),
        decreases goal_plans.len() - k,
    {
        proof {
            assert(plans[k as int] == goal_plans@[k as int]@);
        }
        let goal_plan = &goal_plans[k];
        let ghost items = plans[k as int].plan_items;
        let mut j: usize = 0;
        while j < goal_plan.plan_items.len()
            invariant
                0 <= j <= goal_plan.plan_items.len(),
                plans == goal_plans.deep_view(),
                k < plans.len(),
                *goal_plan == goal_plans[k as int],
                items == goal_plan.plan_items.deep_view(),
                items == plans[k as int].plan_items,
                sorted_lex(out.deep_view()),
                no_dups(out.deep_view()),
                forall|y: Seq<char>| out.deep_view().contains(y) <==> (owner_in_plans(
                    plans.take(k as int), y) || owner_in_items(items.take(j as int), y)),
            decreases goal_plan.plan_items.len() - j,
        {
            proof {
                assert(items[j as int] == goal_plan.plan_items@[j as int]@);
            }
            let item = &goal_plan.plan_items[j];
            let owners_vec = item.task_owners();
            let ghost ov = owners_vec.deep_view();
            let mut t: usize = 0;
            while t < owners_vec.len()
                invariant
                    0 <= t <= owners_vec.len(),
                    plans == goal_plans.deep_view(),
                    k < plans.len(),
                    j < items.len(),
                    items == plans[k as int].plan_items,
                    ov == owners_vec.deep_view(),
                    sorted_lex(out.deep_view()),
                    no_dups(out.deep_view()),
                    forall|y: Seq<char>| out.deep_view().contains(y) <==> (owner_in_plans(
                        plans.take(k as int), y) || owner_in_items(items.take(j as int), y)
                        || ov.take(t as int).contains(y)),
                decreases owners_vec.len() - t,
            {
                proof {
                    assert(ov[t as int] == owners_vec@[t as int]@);
                }
                let ghost before = out.deep_view();
                insert_sorted(&mut out, owners_vec[t].clone());
                proof {
                    assert forall|y: Seq<char>| out.deep_view().contains(y) implies (
                        owner_in_plans(plans.take(k as int), y) || owner_in_items(
                            items.take(j as int), y) || ov.take(t as int + 1).contains(y)) by {
                        if y == ov[t as int] {
                            assert(ov.take(t as int + 1)[t as int] == y);
                        } else if before.contains(y) {
                            if ov.take(t as int).contains(y) {
                                let w = choose|w: int| 0 <= w < t && #[trigger] ov.take(
                                    t as int)[w] == y;
                                assert(ov.take(t as int + 1)[w] == y);
                            }
                        }
                    }
                    assert forall|y: Seq<char>| (owner_in_plans(plans.take(k as int), y)
                        || owner_in_items(items.take(j as int), y) || ov.take(
                        t as int + 1).contains(y)) implies out.deep_view().contains(y) by {
                        if ov.take(t as int + 1).contains(y) {
                            let w = choose|w: int| 0 <= w < t + 1 && #[trigger] ov.take(
                                t as int + 1)[w] == y;
                            if w < t {
                                assert(ov.take(t as int)[w] == y);
                            } else {
                                assert(y == ov[t as int]);
                            }
                        }
                    }
                }
                t = t + 1;
            }
            proof {
                assert(ov.take(ov.len() as int) =~= ov);
                assert(ov.len() == owners_vec.len());
                let iv = items[j as int];
                assert forall|y: Seq<char>| out.deep_view().contains(y) implies (
                    owner_in_plans(plans.take(k as int), y) || owner_in_items(
                        items.take(j as int + 1), y)) by {
                    if owner_in_items(items.take(j as int), y) {
                        let w = choose|w: int| 0 <= w < j && !contains_sub(
                            (#[trigger] items.take(j as int)[w]).owners, team_marker())
                            && task_owners_spec(items.take(j as int)[w].owners).contains(y);
                        assert(items.take(j as int + 1)[w] == items[w]);
                        assert(owner_in_items(items.take(j as int + 1), y));
                    } else if ov.contains(y) {
                        assert(!contains_sub(iv.owners, team_marker()));
                        assert(task_owners_spec(iv.owners).contains(y));
                        assert(items.take(j as int + 1)[j as int] == iv);
                        assert(owner_in_items(items.take(j as int + 1), y));
                    }
                }
                assert forall|y: Seq<char>| (owner_in_plans(plans.take(k as int), y)
                    || owner_in_items(items.take(j as int + 1), y)) implies
                    out.deep_view().contains(y) by {
                    if owner_in_items(items.take(j as int + 1), y) {
                        let w = choose|w: int| 0 <= w < j + 1 && !contains_sub(
                            (#[trigger] items.take(j as int + 1)[w]).owners, team_marker())
                            && task_owners_spec(items.take(j as int + 1)[w].owners).contains(y);
                        if w < j {
                            assert(items.take(j as int)[w] == items[w]);
                            assert(owner_in_items(items.take(j as int), y));
                        } else {
                            assert(items[j as int] == iv);
                            assert(ov.contains(y));
                        }
                    }
                }
            }
            j = j + 1;
        }
        proof {
            assert(items.take(items.len() as int) =~= items);
            assert(items.len() == goal_plan.plan_items.len());
            assert forall|y: Seq<char>| out.deep_view().contains(y) implies owner_in_plans(
                plans.take(k as int + 1), y) by {
                if owner_in_plans(plans.take(k as int), y) {
                    let w = choose|w: int| 0 <= w < k && owner_in_items(
                        (#[trigger] plans.take(k as int)[w]).plan_items, y);
                    assert(plans.take(k as int + 1)[w] == plans[w]);
                    assert(owner_in_plans(plans.take(k as int + 1), y));
                } else {
                    assert(owner_in_items(items, y));
                    assert(plans.take(k as int + 1)[k as int] == plans[k as int]);
                    assert(owner_in_plans(plans.take(k as int + 1), y));
                }
            }
            assert forall|y: Seq<char>| owner_in_plans(plans.take(k as int + 1), y) implies
                out.deep_view().contains(y) by {
                let w = choose|w: int| 0 <= w < k + 1 && owner_in_items(
                    (#[trigger] plans.take(k as int + 1)[w]).plan_items, y);
                if w < k {
                    assert(plans.take(k as int)[w] == plans[w]);
                    assert(owner_in_plans(plans.take(k as int), y));
                } else {
                    assert(plans[k as int].plan_items == items);
                    assert(owner_in_items(items.take(items.len() as int), y));
                }
            }
        }
        k = k + 1;
    }
    proof {
        assert(plans.take(plans.len() as int) =~= plans);
        assert(plans.len() == goal_plans.len());
    }
    out
}

/// The mathematical content of a `GoalDocument`.
pub ghost struct GoalDocumentView {
    pub path: Seq<char>,
    pub link_path: Seq<char>,
    pub metadata: crate::metadata::MetadataView,
    pub summary: Seq<char>,
    pub goal_plans: Seq<GoalPlanView>,
    pub task_owners: Seq<Seq<char>>,
    pub team_asks: Seq<TeamAskView>,
}

/// Data parsed from one goal document.
#[derive(Debug)]
pub struct GoalDocument {
    /// Path of the source document.
    pub path: String,
    /// Path relative to the directory of goals, suitable for links.
    pub link_path: String,
    /// The validated metadata record.
    pub metadata: Metadata,
    /// Text of the `Summary` section, defaulting to the title.
    pub summary: String,
    /// The plan tables' items, one entry per plan table.
    pub goal_plans: Vec<GoalPlan>,
    /// Usernames owning non-team-ask items: sorted, without duplicates.
    pub task_owners: Vec<String>,
    /// The validated team asks of the document.
    pub team_asks: Vec<TeamAsk>,
}

impl View for GoalDocument {
    type V = GoalDocumentView;

    open spec fn view(&self) -> GoalDocumentView {
        GoalDocumentView {
            path: self.path@,
            link_path: self.link_path@,
            metadata: self.metadata@,
            summary: self.summary@,
            goal_plans: self.goal_plans.deep_view(),
            task_owners: self.task_owners.deep_view(),
            team_asks: self.team_asks.deep_view(),
        }
    }
}

impl DeepView for GoalDocument {
    type V = GoalDocumentView;

    open spec fn deep_view(&self) -> GoalDocumentView {
        self.view()
    }
}

/// The goal titles an ask carries: the goal's short title, then the
/// subgoal title when the plan came from a subsection.
pub open spec fn plan_titles(short_title: Seq<char>, subgoal: Option<Seq<char>>) -> Seq<
    Seq<char>,
> {
    match subgoal {
        Some(t) => seq![short_title, t],
        None => seq![short_title],
    }
}

/// The asks one plan item contributes: one ask carrying the item's
/// task, teams and notes when it is a team ask; none otherwise.
pub open spec fn ask_of_item(
    item: PlanItemView,
    link_path: Seq<char>,
    titles: Seq<Seq<char>>,
    pocs: Seq<char>,
) -> Seq<TeamAskView> {
    if contains_sub(item.owners, team_marker()) {
        seq![
            TeamAskView {
                link_path,
                ask_description: item.text,
                goal_titles: titles,
                teams: team_names_spec(item.owners),
                owners: pocs,
                notes: item.notes,
            },
        ]
    } else {
        Seq::empty()
    }
}

/// The asks of a list of plan items, in row order.
pub open spec fn asks_of_items(
    items: Seq<PlanItemView>,
    link_path: Seq<char>,
    titles: Seq<Seq<char>>,
    pocs: Seq<char>,
) -> Seq<TeamAskView>
    decreases items.len(),
{
    if items.len() == 0 {
        Seq::empty()
    } else {
        ask_of_item(items[0], link_path, titles, pocs) + asks_of_items(
            items.drop_first(), link_path, titles, pocs)
    }
}

/// The asks of a list of plans, in plan-then-row order.
pub open spec fn asks_of_plans(
    plans: Seq<GoalPlanView>,
    link_path: Seq<char>,
    short_title: Seq<char>,
    pocs: Seq<char>,
) -> Seq<TeamAskView>
    decreases plans.len(),
{
    if plans.len() == 0 {
        Seq::empty()
    } else {
        asks_of_items(plans[0].plan_items, link_path, plan_titles(short_title,
            plans[0].subgoal), pocs) + asks_of_plans(plans.drop_first(), link_path,
            short_title, pocs)
    }
}

proof fn lemma_asks_items_snoc(
    items: Seq<PlanItemView>,
    j: int,
    link_path: Seq<char>,
    titles: Seq<Seq<char>>,
    pocs: Seq<char>,
)
    requires
        0 <= j < items.len(),
    ensures
        asks_of_items(items.take(j + 1), link_path, titles, pocs) == asks_of_items(
            items.take(j), link_path, titles, pocs) + ask_of_item(items[j], link_path,
            titles, pocs),
    decreases j,
{
    if j == 0 {
        assert(items.take(0) =~= Seq::<PlanItemView>::empty());
        assert(items.take(1)[0] == items[0]);
        assert(items.take(1).drop_first() =~= Seq::<PlanItemView>::empty());
        assert(asks_of_items(items.take(1), link_path, titles, pocs) =~= asks_of_items(
            items.take(0), link_path, titles, pocs) + ask_of_item(items[0], link_path,
            titles, pocs));
    } else {
        let t = items.drop_first();
        lemma_asks_items_snoc(t, j - 1, link_path, titles, pocs);
        assert(items.take(j + 1)[0] == items[0]);
        assert(items.take(j + 1).drop_first() =~= t.take(j));
        assert(items.take(j)[0] == items[0]);
        assert(items.take(j).drop_first() =~= t.take(j - 1));
        assert(t[j - 1] == items[j]);
        assert(asks_of_items(items.take(j + 1), link_path, titles, pocs) =~= asks_of_items(
            items.take(j), link_path, titles, pocs) + ask_of_item(items[j], link_path,
            titles, pocs));
    }
}

proof fn lemma_asks_plans_snoc(
    plans: Seq<GoalPlanView>,
    k: int,
    link_path: Seq<char>,
    short_title: Seq<char>,
    pocs: Seq<char>,
)
    requires
        0 <= k < plans.len(),
    ensures
        asks_of_plans(plans.take(k + 1), link_path, short_title, pocs) == asks_of_plans(
            plans.take(k), link_path, short_title, pocs) + asks_of_items(
            plans[k].plan_items, link_path, plan_titles(short_title, plans[k].subgoal),
            pocs),
    decreases k,
{
    if k == 0 {
        assert(plans.take(0) =~= Seq::<GoalPlanView>::empty());
        assert(plans.take(1)[0] == plans[0]);
        assert(plans.take(1).drop_first() =~= Seq::<GoalPlanView>::empty());
        assert(asks_of_plans(plans.take(1), link_path, short_title, pocs) =~= asks_of_plans(
            plans.take(0), link_path, short_title, pocs) + asks_of_items(
            plans[0].plan_items, link_path, plan_titles(short_title, plans[0].subgoal),
            pocs));
    } else {
        let t = plans.drop_first();
        lemma_asks_plans_snoc(t, k - 1, link_path, short_title, pocs);
        assert(plans.take(k + 1)[0] == plans[0]);
        assert(plans.take(k + 1).drop_first() =~= t.take(k));
        assert(plans.take(k)[0] == plans[0]);
        assert(plans.take(k).drop_first() =~= t.take(k - 1));
        assert(t[k - 1] == plans[k]);
        assert(asks_of_plans(plans.take(k + 1), link_path, short_title, pocs)
            =~= asks_of_plans(plans.take(k), link_path, short_title, pocs) + asks_of_items(
            plans[k].plan_items, link_path, plan_titles(short_title, plans[k].subgoal),
            pocs));
    }
}

/// Exactly when ownership resolution of one plan item raises each
/// error.
pub open spec fn ask_item_err(
    item: PlanItemView,
    reg: Seq<Seq<char>>,
    cfg: Seq<AskEntryView>,
    e: GoalError,
) -> bool {
    contains_sub(item.owners, team_marker()) && match e {
        GoalError::UnknownTeam { name, valid } => valid.deep_view() == reg
            && first_unknown_team(team_names_spec(item.owners), reg, name@),
        GoalError::NoTeamsListed { task } => team_names_spec(item.owners).len() == 0
            && task@ == item.text,
        GoalError::UnrecognizedAsk { task, valid } => task@ == item.text && !has_ask_spec(
            cfg, item.text) && valid.deep_view() == cfg
            && team_names_spec(item.owners).len() > 0
            && (forall|t: int| 0 <= t < team_names_spec(item.owners).len()
                ==> reg.contains(#[trigger] team_names_spec(item.owners)[t])),
        _ => false,
    }
}

/// Valid metadata of an accepted-or-proposed goal was extracted.
pub open spec fn md_extracted_nn(deep: Seq<SectionView>) -> bool {
    exists|m: MetadataView| metadata_ok(deep, m)
        && m.status.acceptance != AcceptanceStatus::NotAccepted
}

/// Some plan item of the document's extracted plans raises the
/// ownership-resolution error `e`.
pub open spec fn item_err_in_plans(
    deep: Seq<SectionView>,
    reg: Seq<Seq<char>>,
    cfg: Seq<AskEntryView>,
    e: GoalError,
) -> bool {
    exists|ps: Seq<GoalPlanView>, a: int, b: int| #![auto]
        plans_ok(deep, ps) && 0 <= a < ps.len() && 0 <= b < ps[a].plan_items.len()
            && ask_item_err(ps[a].plan_items[b], reg, cfg, e)
}

/// Every ask of the list is validated: it carries the document's link
/// path, at least one team, each team in the registry, and a recognized
/// ask phrase.
pub open spec fn asks_valid(
    asks: Seq<TeamAskView>,
    link_path: Seq<char>,
    pocs: Seq<char>,
    reg: Seq<Seq<char>>,
    cfg: Seq<crate::registry::AskEntryView>,
) -> bool {
    forall|k: int| 0 <= k < asks.len() ==> {
        let a = #[trigger] asks[k];
        &&& a.link_path == link_path
        &&& a.owners == pocs
        &&& a.teams.len() > 0
        &&& forall|t: int| 0 <= t < a.teams.len() ==> reg.contains(#[trigger] a.teams[t])
        &&& has_ask_spec(cfg, a.ask_description)
    }
}

impl GoalDocument {
    /// True if this goal is a candidate: it may yet be accepted.
    pub fn is_not_not_accepted(&self) -> (r: bool)
        ensures
            r == (self@.metadata.status.acceptance != AcceptanceStatus::NotAccepted),
    {
        self.metadata.status.is_not_not_accepted()
    }

    /// The point of contact as rendered in goal lists: invited goals
    /// show a help-wanted marker instead of the listed usernames.
    pub fn point_of_contact_for_goal_list(&self) -> (r: String)
        ensures
            r@ == if self@.metadata.status.is_invited {
                "![Help Wanted][]"@
            } else {
                self@.metadata.pocs
            },
    {
        if self.metadata.status.is_invited {
            "![Help Wanted][]".to_owned()
        } else {
            self.metadata.pocs.clone()
        }
    }

    /// Load one goal document from its parsed sections. A document whose
    /// first section has no table is not a goal document: `Ok(None)`.
    /// Otherwise the metadata is validated, the summary read, the plan
    /// extracted (skipped for not-accepted goals), the team asks
    /// aggregated and validated, and the accepted-or-proposed goal is
    /// required to ask something of some team.
    pub fn load(
        path: &str,
        link_path: &str,
        sections: &Vec<Section>,
        registry: &TeamRegistry,
        config: &Configuration,
    ) -> (r: Result<Option<GoalDocument>, GoalError>)
        requires
            sections_wf(sections.deep_view()),
        ensures
            ({
                let deep = sections.deep_view();
                match r {
                    Ok(None) => deep.len() > 0 && deep[0].title.len() > 0
                        && deep[0].tables.len() == 0,
                    Ok(Some(doc)) => {
                        &&& doc@.path == path@
                        &&& doc@.link_path == link_path@
                        &&& metadata_ok(deep, doc@.metadata)
                        &&& doc@.summary == (match summary_of(deep) {
                            Some(s) => s,
                            None => doc@.metadata.title,
                        })
                        &&& if doc@.metadata.status.acceptance != AcceptanceStatus::NotAccepted {
                            plans_ok(deep, doc@.goal_plans)
                        } else {
                            doc@.goal_plans.len() == 0
                        }
                        &&& sorted_lex(doc@.task_owners)
                        &&& no_dups(doc@.task_owners)
                        &&& forall|y: Seq<char>| doc@.task_owners.contains(y) <==> owner_in_plans(
                            doc@.goal_plans, y)
                        &&& asks_valid(doc@.team_asks, link_path@, doc@.metadata.pocs,
                            registry@, config@)
                        &&& doc@.team_asks == asks_of_plans(doc@.goal_plans, link_path@,
                            doc@.metadata.short_title, doc@.metadata.pocs)
                        &&& doc@.metadata.status.acceptance != AcceptanceStatus::NotAccepted
                            ==> doc@.team_asks.len() > 0
                    },
                    Err(e) => {
                        // A document without a metadata table is skipped,
                        // never rejected.
                        &&& !(deep.len() > 0 && deep[0].title.len() > 0
                            && deep[0].tables.len() == 0)
                        &&& match e {
                            GoalError::WrongTableHeader { .. } => metadata_err(deep, e)
                                || (md_extracted_nn(deep) && plans_err(deep, e)),
                            GoalError::MissingPlanSection => md_extracted_nn(deep)
                                && plans_err(deep, e),
                            GoalError::NoPlanItems => md_extracted_nn(deep)
                                && plans_err(deep, e),
                            GoalError::MultiplePlanTables { .. } => md_extracted_nn(deep)
                                && plans_err(deep, e),
                            GoalError::UnknownTeam { .. } => md_extracted_nn(deep)
                                && item_err_in_plans(deep, registry@, config@, e),
                            GoalError::NoTeamsListed { .. } => md_extracted_nn(deep)
                                && item_err_in_plans(deep, registry@, config@, e),
                            GoalError::UnrecognizedAsk { .. } => md_extracted_nn(deep)
                                && item_err_in_plans(deep, registry@, config@, e),
                            GoalError::NoTeamAsks => exists|m: MetadataView,
                                ps: Seq<GoalPlanView>| #![auto]
                                metadata_ok(deep, m)
                                && m.status.acceptance != AcceptanceStatus::NotAccepted
                                && plans_ok(deep, ps)
                                && asks_of_plans(ps, link_path@, m.short_title,
                                    m.pocs).len() == 0,
                            _ => metadata_err(deep, e),
                        }
                    },
                }
            }),
    {
        let ghost deep = sections.deep_view();
        let metadata = match extract_metadata(sections) {
            Ok(Some(m)) => m,
            Ok(None) => {
                return Ok(None);
            },
            Err(e) => {
                return Err(e);
            },
        };

        let summary = match extract_summary(sections) {
            Ok(Some(s)) => s,
            Ok(None) => metadata.title.clone(),
            Err(e) => {
                return Err(e);
            },
        };

        let goal_plans: Vec<GoalPlan> = if metadata.status.is_not_not_accepted() {
            match extract_plan_items(sections) {
                Ok(ps) => ps,
                Err(e) => {
                    return Err(e);
                },
            }
        } else {
            Vec::new()
        };
        proof {
            assert(goal_plans.deep_view().len() == goal_plans.len());
            if metadata@.status.acceptance != AcceptanceStatus::NotAccepted {
                assert(plans_ok(deep, goal_plans.deep_view()));
            } else {
                assert(goal_plans.deep_view().len() == 0);
            }
        }

        let lp: String = link_path.to_owned();

        let mut team_asks: Vec<TeamAsk> = Vec::new();
        let ghost plans = goal_plans.deep_view();
        let mut k: usize = 0;
        while k < goal_plans.len()
            invariant
                0 <= k <= goal_plans.len(),
                plans == goal_plans.deep_view(),
                deep == sections.deep_view(),
                lp@ == link_path@,
                metadata@.pocs == metadata.pocs@,
                metadata@.short_title == metadata.short_title@,
                metadata_ok(deep, metadata@),
                plans.len() > 0 ==> metadata@.status.acceptance
                    != AcceptanceStatus::NotAccepted && plans_ok(deep, plans),
                asks_valid(team_asks.deep_view(), link_path@, metadata@.pocs, registry@,
                    config@),
                team_asks.deep_view() == asks_of_plans(plans.take(k as int), link_path@,
                    metadata@.short_title, metadata@.pocs),
            decreases goal_plans.len() - k,
        {
            proof {
                assert(plans[k as int] == goal_plans@[k as int]@);
            }
            let goal_plan = &goal_plans[k];
            let mut goal_titles: Vec<String> = Vec::new();
            goal_titles.push(metadata.short_title.clone());
            if let Some(subgoal) = &goal_plan.subgoal {
                goal_titles.push(subgoal.clone());
            }
            let ghost titles = plan_titles(metadata@.short_title, plans[k as int].subgoal);
            proof {
                match goal_plan.subgoal {
                    Some(_) => {
                        assert(goal_titles.deep_view() =~= titles);
                    },
                    None => {
                        assert(goal_titles.deep_view() =~= titles);
                    },
                }
            }
            let ghost items = plans[k as int].plan_items;
            proof {
                assert(items.take(0) =~= Seq::<PlanItemView>::empty());
                assert(team_asks.deep_view() =~= asks_of_plans(plans.take(k as int),
                    link_path@, metadata@.short_title, metadata@.pocs) + asks_of_items(
                    items.take(0), link_path@, titles, metadata@.pocs));
            }
            let mut j: usize = 0;
            while j < goal_plan.plan_items.len()
                invariant
                    0 <= j <= goal_plan.plan_items.len(),
                    k < plans.len(),
                    plans == goal_plans.deep_view(),
                    *goal_plan == goal_plans[k as int],
                    items == goal_plan.plan_items.deep_view(),
                    items == plans[k as int].plan_items,
                    deep == sections.deep_view(),
                    lp@ == link_path@,
                    metadata@.pocs == metadata.pocs@,
                    metadata@.short_title == metadata.short_title@,
                    metadata_ok(deep, metadata@),
                    metadata@.status.acceptance != AcceptanceStatus::NotAccepted,
                    plans_ok(deep, plans),
                    titles == plan_titles(metadata@.short_title, plans[k as int].subgoal),
                    goal_titles.deep_view() == titles,
                    asks_valid(team_asks.deep_view(), link_path@, metadata@.pocs, registry@,
                        config@),
                    team_asks.deep_view() == asks_of_plans(plans.take(k as int), link_path@,
                        metadata@.short_title, metadata@.pocs) + asks_of_items(
                        items.take(j as int), link_path@, titles, metadata@.pocs),
                decreases goal_plan.plan_items.len() - j,
            {
                proof {
                    assert(items[j as int] == goal_plan.plan_items@[j as int]@);
                }
                let item = &goal_plan.plan_items[j];
                let asks = match item.team_asks(
                    &lp,
                    &goal_titles,
                    metadata.pocs.as_str(),
                    registry,
                    config,
                ) {
                    Ok(a) => a,
                    Err(e) => {
                        proof {
                            assert(item@ == items[j as int]);
                            assert(ask_item_err(plans[k as int].plan_items[j as int],
                                registry@, config@, e));
                            assert(item_err_in_plans(deep, registry@, config@, e));
                            assert(md_extracted_nn(deep)) by {
                                assert(metadata_ok(deep, metadata@));
                            }
                        }
                        return Err(e);
                    },
                };
                let ghost before = team_asks.deep_view();
                let ghost added = asks.deep_view();
                let mut asks2 = asks;
                team_asks.append(&mut asks2);
                proof {
                    let now = team_asks.deep_view();
                    assert(now.len() == before.len() + added.len());
                    assert(forall|w: int| 0 <= w < before.len() ==> now[w] == before[w]);
                    assert(forall|w: int| 0 <= w < added.len()
                        ==> now[before.len() + w] == added[w]);
                    assert(added =~= ask_of_item(items[j as int], link_path@, titles,
                        metadata@.pocs)) by {
                        assert(item@ == items[j as int]);
                        if contains_sub(items[j as int].owners, team_marker()) {
                            assert(added[0] == (TeamAskView {
                                link_path: link_path@,
                                ask_description: items[j as int].text,
                                goal_titles: titles,
                                teams: team_names_spec(items[j as int].owners),
                                owners: metadata@.pocs,
                                notes: items[j as int].notes,
                            }));
                        }
                    }
                    lemma_asks_items_snoc(items, j as int, link_path@, titles,
                        metadata@.pocs);
                    assert(now =~= asks_of_plans(plans.take(k as int), link_path@,
                        metadata@.short_title, metadata@.pocs) + asks_of_items(
                        items.take(j as int + 1), link_path@, titles, metadata@.pocs));
                    assert forall|w: int| 0 <= w < now.len() implies ({
                        let a = #[trigger] now[w];
                        &&& a.link_path == link_path@
                        &&& a.owners == metadata@.pocs
                        &&& a.teams.len() > 0
                        &&& forall|t: int| 0 <= t < a.teams.len() ==> registry@.contains(
                            #[trigger] a.teams[t])
                        &&& has_ask_spec(config@, a.ask_description)
                    }) by {
                        if w >= before.len() {
                            assert(now[w] == added[w - before.len()]);
                        }
                    }
                }
                j = j + 1;
            }
            proof {
                assert(items.take(items.len() as int) =~= items);
                assert(items.len() == goal_plan.plan_items.len());
                lemma_asks_plans_snoc(plans, k as int, link_path@, metadata@.short_title,
                    metadata@.pocs);
                assert(team_asks.deep_view() =~= asks_of_plans(plans.take(k as int + 1),
                    link_path@, metadata@.short_title, metadata@.pocs));
            }
            k = k + 1;
        }
        proof {
            assert(plans.take(plans.len() as int) =~= plans);
            assert(plans.len() == goal_plans.len());
        }

        if metadata.status.is_not_not_accepted() && team_asks.len() == 0 {
            proof {
                assert(team_asks.deep_view().len() == 0);
                assert(asks_of_plans(plans, link_path@, metadata@.short_title,
                    metadata@.pocs).len() == 0);
                assert(plans_ok(deep, plans));
                assert(metadata_ok(deep, metadata@));
            }
            return Err(GoalError::NoTeamAsks);
        }

        let task_owners = collect_task_owners(&goal_plans);

        proof {
            assert(team_asks.deep_view().len() == team_asks.len());
        }
        Ok(Some(GoalDocument {
            path: path.to_owned(),
            link_path: lp,
            metadata,
            summary,
            goal_plans,
            task_owners,
            team_asks,
        }))
    }

    /// The set of teams with asks in this document: sorted, without
    /// duplicates, containing exactly the teams named by some ask.
    pub fn teams_with_asks(&self) -> (r: Vec<String>)
        ensures
            sorted_lex(r.deep_view()),
            no_dups(r.deep_view()),
            forall|y: Seq<char>| r.deep_view().contains(y) <==> team_in_asks(
                self@.team_asks, y),
    {
        let ghost asks = self.team_asks.deep_view();
        let mut out: Vec<String> = Vec::new();
        let mut k: usize = 0;
        while k < self.team_asks.len()
            invariant
                0 <= k <= self.team_asks.len(),
                asks == self.team_asks.deep_view(),
                sorted_lex(out.deep_view()),
                no_dups(out.deep_view()),
                forall|y: Seq<char>| out.deep_view().contains(y) <==> team_in_asks(
                    asks.take(k as int), y),
            decreases self.team_asks.len() - k,
        {
            proof {
                assert(asks[k as int] == self.team_asks@[k as int]@);
            }
            let teams = &self.team_asks[k].teams;
            let ghost tv = asks[k as int].teams;
            let mut t: usize = 0;
            while t < teams.len()
                invariant
                    0 <= t <= teams.len(),
                    asks == self.team_asks.deep_view(),
                    k < asks.len(),
                    tv == asks[k as int].teams,
                    *teams == self.team_asks[k as int].teams,
                    teams.deep_view() == tv,
                    sorted_lex(out.deep_view()),
                    no_dups(out.deep_view()),
                    forall|y: Seq<char>| out.deep_view().contains(y) <==> (team_in_asks(
                        asks.take(k as int), y) || tv.take(t as int).contains(y)),
                decreases teams.len() - t,
            {
                proof {
                    assert(tv[t as int] == teams@[t as int]@);
                }
                let ghost before = out.deep_view();
                insert_sorted(&mut out, teams[t].clone());
                proof {
                    assert forall|y: Seq<char>| out.deep_view().contains(y) implies (
                        team_in_asks(asks.take(k as int), y) || tv.take(t as int + 1).contains(
                            y)) by {
                        if y == tv[t as int] {
                            assert(tv.take(t as int + 1)[t as int] == y);
                        } else if before.contains(y) {
                            if tv.take(t as int).contains(y) {
                                let w = choose|w: int| 0 <= w < t && #[trigger] tv.take(
                                    t as int)[w] == y;
                                assert(tv.take(t as int + 1)[w] == y);
                            }
                        }
                    }
                    assert forall|y: Seq<char>| (team_in_asks(asks.take(k as int), y)
                        || tv.take(t as int + 1).contains(y)) implies out.deep_view().contains(
                        y) by {
                        if tv.take(t as int + 1).contains(y) {
                            let w = choose|w: int| 0 <= w < t + 1 && #[trigger] tv.take(
                                t as int + 1)[w] == y;
                            if w < t {
                                assert(tv.take(t as int)[w] == y);
                            } else {
                                assert(y == tv[t as int]);
                            }
                        }
                    }
                }
                t = t + 1;
            }
            proof {
                assert(tv.take(tv.len() as int) =~= tv);
                assert forall|y: Seq<char>| out.deep_view().contains(y) implies team_in_asks(
                    asks.take(k as int + 1), y) by {
                    if team_in_asks(asks.take(k as int), y) {
                        let w = choose|w: int| 0 <= w < k && (#[trigger] asks.take(
                            k as int)[w]).teams.contains(y);
                        assert(asks.take(k as int + 1)[w].teams.contains(y));
                    } else {
                        assert(tv.contains(y));
                        assert(asks.take(k as int + 1)[k as int].teams.contains(y));
                    }
                }
                assert forall|y: Seq<char>| team_in_asks(asks.take(k as int + 1), y) implies
                    out.deep_view().contains(y) by {
                    let w = choose|w: int| 0 <= w < k + 1 && (#[trigger] asks.take(
                        k as int + 1)[w]).teams.contains(y);
                    if w < k {
                        assert(asks.take(k as int)[w].teams.contains(y));
                    } else {
                        assert(tv.contains(y));
                    }
                }
            }
            k = k + 1;
        }
        proof {
            assert(asks.take(asks.len() as int) =~= asks);
            assert(asks.len() == self.team_asks.len());
        }
        out
    }
}

} // verus!
