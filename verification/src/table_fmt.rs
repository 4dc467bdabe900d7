//! The summary-table formatter: renders a list of goal documents into
//! one of two tabular layouts, depending on whether any goal is still
//! proposed.

use vstd::prelude::*;
use crate::document::{GoalDocument, team_in_asks};
use crate::issue::{IssueIdView, issue_url};
use crate::metadata::MetadataView;
use crate::model::owned_cells;
use crate::order::{sorted_lex, no_dups};
use crate::status::AcceptanceStatus;

verus! {

/// The comma-joined text of a list of names.
pub open spec fn commas_spec(s: Seq<Seq<char>>) -> Seq<char>
    decreases s.len(),
{
    if s.len() == 0 {
        Seq::empty()
    } else if s.len() == 1 {
        s[0]
    } else {
        s[0] + ", "@ + commas_spec(s.drop_first())
    }
}

/// Join names with `, `.
pub fn commas(names: &Vec<String>) -> (r: String)
    ensures
        r@ == commas_spec(names.deep_view()),
{
    proof {
        assert(names.deep_view().skip(0) =~= names.deep_view());
    }
    commas_from(names, 0)
}

fn commas_from(names: &Vec<String>, from: usize) -> (r: String)
    requires
        from <= names.len(),
    ensures
        r@ == commas_spec(names.deep_view().skip(from as int)),
    decreases names.len() - from,
{
    let ghost deep = names.deep_view();
    if from == names.len() {
        proof {
            assert(deep.skip(from as int) =~= Seq::<Seq<char>>::empty());
        }
        return String::new();
    }
    proof {
        assert(deep.skip(from as int)[0] == deep[from as int]);
        assert(deep.skip(from as int).drop_first() =~= deep.skip(from as int + 1));
        assert(deep[from as int] == names@[from as int]@);
    }
    if from + 1 == names.len() {
        names[from].clone()
    } else {
        let mut out = names[from].clone();
        out.append(", ");
        let rest = commas_from(names, from + 1);
        out.append(rest.as_str());
        proof {
            assert(out@ =~= commas_spec(deep.skip(from as int)));
        }
        out
    }
}

/// Position of the last occurrence of `c` in `s`.
pub open spec fn rfind_char(s: Seq<char>, c: char) -> Option<int>
    decreases s.len(),
{
    if s.len() == 0 {
        None
    } else if s[s.len() - 1] == c {
        Some(s.len() - 1)
    } else {
        rfind_char(s.drop_last(), c)
    }
}

fn rfind_char_in(s: &str, c: char) -> (r: Option<usize>)
    ensures
        match r {
            Some(i) => rfind_char(s@, c) == Some(i as int),
            None => rfind_char(s@, c) is None,
        },
    decreases s@.len(),
{
    let len = s.unicode_len();
    if len == 0 {
        return None;
    }
    if s.get_char(len - 1) == c {
        return Some(len - 1);
    }
    let head = s.substring_char(0, len - 1);
    proof {
        assert(head@ =~= s@.drop_last());
    }
    rfind_char_in(head, c)
}

/// The path has a parent directory to take a milestone name from.
pub open spec fn has_parent_dir(path: Seq<char>) -> bool {
    rfind_char(path, '/') is Some
}

/// The milestone of a goal document: the name of the immediate parent
/// directory of its path.
pub open spec fn milestone_of(path: Seq<char>) -> Seq<char>
    recommends
        has_parent_dir(path),
{
    let parent = path.subrange(0, rfind_char(path, '/') -> Some_0);
    match rfind_char(parent, '/') {
        Some(i) => parent.subrange(i + 1, parent.len() as int),
        None => parent,
    }
}

fn milestone_of_path(path: &str) -> (r: String)
    requires
        has_parent_dir(path@),
    ensures
        r@ == milestone_of(path@),
{
    let j = match rfind_char_in(path, '/') {
        Some(j) => j,
        None => 0,
    };
    proof {
        lemma_rfind_in_range(path@, '/');
    }
    let parent = path.substring_char(0, j);
    proof {
        assert(parent@ =~= path@.subrange(0, j as int));
        lemma_rfind_in_range(parent@, '/');
    }
    match rfind_char_in(parent, '/') {
        Some(i) => {
            let out = parent.substring_char(i + 1, parent.unicode_len());
            proof {
                assert(out@ =~= milestone_of(path@));
            }
            out.to_owned()
        },
        None => parent.to_owned(),
    }
}

proof fn lemma_rfind_in_range(s: Seq<char>, c: char)
    ensures
        rfind_char(s, c) matches Some(i) ==> 0 <= i < s.len(),
    decreases s.len(),
{
    if s.len() > 0 && s[s.len() - 1] != c {
        lemma_rfind_in_range(s.drop_last(), c);
    }
}

/// The goal cell: a link to the document, titled with the goal's title.
pub open spec fn goal_cell(m: MetadataView, link_path: Seq<char>) -> Seq<char> {
    "["@ + m.title + "]("@ + link_path + ")"@
}

/// The point-of-contact cell of a goal list row.
pub open spec fn poc_cell(m: MetadataView) -> Seq<char> {
    if m.status.is_invited {
        "![Help Wanted][]"@
    } else {
        m.pocs
    }
}

/// The progress cell: an embedded progress-bar reference keyed by
/// `milestone:org:repo:number`, or a placeholder without a tracking
/// issue.
pub open spec fn progress_cell(milestone: Seq<char>, tracking: Option<IssueIdView>) -> Seq<
    char,
> {
    match tracking {
        None => "(no tracking issue)"@,
        Some(id) => "<a href='"@ + issue_url(id)
            + "' alt='Tracking issue'><div class='tracking-issue-progress' id='"@ + milestone
            + ":"@ + id.org + ":"@ + id.repo + ":"@ + id.number + "'></div></a>"@,
    }
}

/// One data row of the goal table is correct for goal `g`: a link cell,
/// the point-of-contact cell, and either the comma-joined sorted set of
/// asked teams or the progress cell.
pub open spec fn row_ok(row: Seq<Seq<char>>, g: crate::document::GoalDocumentView, proposed: bool) -> bool {
    &&& row.len() == 3
    &&& row[0] == goal_cell(g.metadata, g.link_path)
    &&& row[1] == poc_cell(g.metadata)
    &&& if proposed {
        exists|ts: Seq<Seq<char>>| sorted_lex(ts) && no_dups(ts) && (forall|y: Seq<char>|
            ts.contains(y) <==> team_in_asks(g.team_asks, y)) && row[2] == #[trigger] commas_spec(
            ts)
    } else {
        row[2] == progress_cell(milestone_of(g.path), g.metadata.tracking_issue)
    }
}

/// Render the goal list as rows of cells. With any proposed goal the
/// columns are `[Goal, Point of contact, Team]`; otherwise
/// `[Goal, Point of contact, Progress]`.
pub fn format_goal_table(goals: &Vec<GoalDocument>) -> (r: Vec<Vec<String>>)
    requires
        !(exists|k: int| 0 <= k < goals.deep_view().len()
            && (#[trigger] goals.deep_view()[k]).metadata.status.acceptance
            == AcceptanceStatus::Proposed) ==> forall|k: int| 0 <= k < goals.deep_view().len()
            ==> has_parent_dir((#[trigger] goals.deep_view()[k]).path),
    ensures
        ({
            let gs = goals.deep_view();
            let proposed = exists|k: int| 0 <= k < gs.len()
                && (#[trigger] gs[k]).metadata.status.acceptance == AcceptanceStatus::Proposed;
            &&& r.deep_view().len() == gs.len() + 1
            &&& r.deep_view()[0] == if proposed {
                seq!["Goal"@, "Point of contact"@, "Team"@]
            } else {
                seq!["Goal"@, "Point of contact"@, "Progress"@]
            }
            &&& forall|k: int| 0 <= k < gs.len() ==> row_ok(#[trigger] r.deep_view()[k + 1],
                gs[k], proposed)
        }),
{
    let ghost gs = goals.deep_view();
    let mut any_proposed = false;
    let mut k: usize = 0;
    while k < goals.len()
        invariant
            0 <= k <= goals.len(),
            gs == goals.deep_view(),
            any_proposed == exists|w: int| 0 <= w < k && (#[trigger] gs[w]).metadata.status.
                acceptance == AcceptanceStatus::Proposed,
        decreases goals.len() - k,
    {
        proof {
            assert(gs[k as int] == goals@[k as int]@);
        }
        if goals[k].metadata.status.acceptance == AcceptanceStatus::Proposed {
            any_proposed = true;
            proof {
                assert(gs[k as int].metadata.status.acceptance == AcceptanceStatus::Proposed);
            }
        }
        k = k + 1;
    }
    proof {
        assert(gs.len() == goals.len());
    }
    let ghost proposed = exists|w: int| 0 <= w < gs.len() && (#[trigger] gs[w]).metadata.status.
        acceptance == AcceptanceStatus::Proposed;
    proof {
        assert(any_proposed == proposed);
    }

    let mut table: Vec<Vec<String>> = Vec::new();
    if any_proposed {
        let header = owned_cells(&["Goal", "Point of contact", "Team"]);
        proof {
            assert((&["Goal", "Point of contact", "Team"]).deep_view() =~= seq![
                "Goal"@, "Point of contact"@, "Team"@]);
        }
        table.push(header);
    } else {
        let header = owned_cells(&["Goal", "Point of contact", "Progress"]);
        proof {
            assert((&["Goal", "Point of contact", "Progress"]).deep_view() =~= seq![
                "Goal"@, "Point of contact"@, "Progress"@]);
        }
        table.push(header);
    }

    let mut i: usize = 0;
    while i < goals.len()
        invariant
            0 <= i <= goals.len(),
            gs == goals.deep_view(),
            proposed == (exists|w: int| 0 <= w < gs.len() && (#[trigger] gs[w]).metadata.status.
                acceptance == AcceptanceStatus::Proposed),
            any_proposed == proposed,
            !proposed ==> forall|w: int| 0 <= w < gs.len() ==> has_parent_dir(
                (#[trigger] gs[w]).path),
            table.len() == i + 1,
            table.deep_view()[0] == if proposed {
                seq!["Goal"@, "Point of contact"@, "Team"@]
            } else {
                seq!["Goal"@, "Point of contact"@, "Progress"@]
            },
            forall|w: int| 0 <= w < i ==> row_ok(#[trigger] table.deep_view()[w + 1], gs[w],
                proposed),
        decreases goals.len() - i,
    {
        proof {
            assert(gs[i as int] == goals@[i as int]@);
        }
        let goal = &goals[i];
        let mut row: Vec<String> = Vec::new();

        let mut cell0 = String::new();
        cell0.append("[");
        cell0.append(goal.metadata.title.as_str());
        cell0.append("](");
        cell0.append(goal.link_path.as_str());
        cell0.append(")");
        proof {
            assert(cell0@ =~= goal_cell(gs[i as int].metadata, gs[i as int].link_path));
        }
        row.push(cell0);

        row.push(goal.point_of_contact_for_goal_list());

        if any_proposed {
            let teams = goal.teams_with_asks();
            let cell2 = commas(&teams);
            let ghost ts = teams.deep_view();
            row.push(cell2);
            proof {
                assert(row.deep_view().len() == 3);
                assert(row.deep_view()[2] == commas_spec(ts));
                assert(sorted_lex(ts) && no_dups(ts));
                assert(forall|y: Seq<char>| ts.contains(y) <==> team_in_asks(
                    gs[i as int].team_asks, y));
            }
        } else {
            let cell2 = match &goal.metadata.tracking_issue {
                None => "(no tracking issue)".to_owned(),
                Some(id) => {
                    let milestone = milestone_of_path(goal.path.as_str());
                    let mut c = String::new();
                    c.append("<a href='");
                    let url = id.url();
                    c.append(url.as_str());
                    c.append("' alt='Tracking issue'><div class='tracking-issue-progress' id='");
                    c.append(milestone.as_str());
                    c.append(":");
                    c.append(id.org.as_str());
                    c.append(":");
                    c.append(id.repo.as_str());
                    c.append(":");
                    c.append(id.number.as_str());
                    c.append("'></div></a>");
                    proof {
                        assert(c@ =~= progress_cell(milestone_of(gs[i as int].path),
                            gs[i as int].metadata.tracking_issue));
                    }
                    c
                },
            };
            let ghost c2 = cell2@;
            row.push(cell2);
            proof {
                assert(row.deep_view().len() == 3);
                assert(row.deep_view()[2] == c2);
                assert(c2 == progress_cell(milestone_of(gs[i as int].path),
                    gs[i as int].metadata.tracking_issue));
            }
        }
        let ghost rv = row.deep_view();
        let ghost prev = table.deep_view();
        proof {
            assert(rv.len() == 3);
            assert(rv[0] == goal_cell(gs[i as int].metadata, gs[i as int].link_path));
            assert(rv[1] == poc_cell(gs[i as int].metadata));
            assert(row_ok(rv, gs[i as int], proposed));
        }
        table.push(row);
        proof {
            assert(table.deep_view().len() == prev.len() + 1);
            assert(forall|w: int| 0 <= w < prev.len() ==> table.deep_view()[w] == prev[w]);
            assert(table.deep_view()[prev.len() as int] == rv);
            assert forall|w: int| 0 <= w < i + 1 implies row_ok(
                #[trigger] table.deep_view()[w + 1], gs[w], proposed) by {
                if w < i {
                    assert(table.deep_view()[w + 1] == prev[w + 1]);
                    assert(row_ok(prev[w + 1], gs[w], proposed));
                } else {
                    assert(table.deep_view()[w + 1] == rv);
                }
            }
        }
        i = i + 1;
    }
    table
}

} // verus!
