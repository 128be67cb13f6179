//! The report an apply (or a dry run) produces from its plan.
use vstd::prelude::*;

use crate::engine::planner::{
    action_views, is_reload_unsupported, reload_action, ActionStatus, ActionView, PlanAction,
    PreflightPlan, RiskLevel,
};
use crate::engine::result::ReasonCode;

verus! {

/// Action counts of a report.
#[derive(Debug, Clone, PartialEq, Eq)]
pub struct ReportSummary {
    pub planned_actions: usize,
    pub high_risk_actions: usize,
    pub skipped_actions: usize,
}

/// The outcome of an apply: its status, the reason codes it met, its actions and counts.
#[derive(Debug, Clone, PartialEq, Eq)]
pub struct ApplyReport {
    pub status: String,
    pub reason_codes: Vec<String>,
    pub actions: Vec<PlanAction>,
    pub summary: ReportSummary,
}

/// The text of each string in a sequence.
pub open spec fn string_texts(v: Seq<String>) -> Seq<Seq<char>> {
    v.map_values(|s: String| s@)
}

/// `first` followed by the reason codes of `actions`, each code once, in the order of
/// first appearance.
pub open spec fn report_codes(first: Seq<char>, actions: Seq<ActionView>) -> Seq<Seq<char>>
    decreases actions.len(),
{
    if actions.len() == 0 {
        seq![first]
    } else {
        let before = report_codes(first, actions.drop_last());
        match actions.last().reason_code {
            Some(c) => if before.contains(c) {
                before
            } else {
                before.push(c)
            },
            None => before,
        }
    }
}

/// The number of high-risk actions.
pub open spec fn count_high_risk(actions: Seq<ActionView>) -> nat
    decreases actions.len(),
{
    if actions.len() == 0 {
        0
    } else {
        count_high_risk(actions.drop_last()) + if actions.last().risk_level == RiskLevel::High {
            1nat
        } else {
            0nat
        }
    }
}

/// The number of skipped actions.
pub open spec fn count_skipped(actions: Seq<ActionView>) -> nat
    decreases actions.len(),
{
    if actions.len() == 0 {
        0
    } else {
        count_skipped(actions.drop_last()) + if actions.last().action_status
            == ActionStatus::Skipped {
            1nat
        } else {
            0nat
        }
    }
}

fn clone_text(o: &Option<String>) -> (r: Option<String>)
    ensures
        r == *o,
{
    match o {
        Some(s) => Some(s.clone()),
        None => None,
    }
}

/// A copy of an action.
pub fn clone_action(a: &PlanAction) -> (r: PlanAction)
    ensures
        r == *a,
{
    PlanAction {
        id: a.id.clone(),
        target: a.target.clone(),
        action_type: a.action_type,
        risk_level: a.risk_level,
        expected_outcome: a.expected_outcome.clone(),
        reason_code: clone_text(&a.reason_code),
        action_status: a.action_status,
        remediation_note: clone_text(&a.remediation_note),
        remediation_command: clone_text(&a.remediation_command),
    }
}

fn contains_text(list: &Vec<String>, s: &String) -> (b: bool)
    ensures
        b == string_texts(list@).contains(s@),
{
    let mut i: usize = 0;
    while i < list.len()
        invariant
            i <= list.len(),
            forall|k: int| 0 <= k < i ==> list@[k]@ != s@,
        decreases list.len() - i,
    {
        if list[i] == *s {
            assert(string_texts(list@)[i as int] == s@);
            return true;
        }
        i = i + 1;
    }
    assert(!string_texts(list@).contains(s@)) by {
        if string_texts(list@).contains(s@) {
            let k = choose|k: int| 0 <= k < list@.len() && string_texts(list@)[k] == s@;
            assert(list@[k]@ == s@);
        }
    }
    false
}

/// Builds the report of a plan under the given status.
pub fn build_report_from_plan(plan: &PreflightPlan, status: &str) -> (r: ApplyReport)
    ensures
        r.status@ == status@,
        string_texts(r.reason_codes@) == report_codes(
            plan.reason_code@,
            action_views(plan.actions@),
        ),
        r.actions@ == plan.actions@,
        r.summary.planned_actions == plan.actions@.len(),
        r.summary.high_risk_actions == count_high_risk(action_views(plan.actions@)),
        r.summary.skipped_actions == count_skipped(action_views(plan.actions@)),
{
    let ghost views = action_views(plan.actions@);
    let mut reason_codes: Vec<String> = Vec::new();
    reason_codes.push(plan.reason_code.clone());
    let mut actions: Vec<PlanAction> = Vec::new();
    let mut high: usize = 0;
    let mut skipped: usize = 0;
    let mut i: usize = 0;
    assert(string_texts(reason_codes@) =~= seq![plan.reason_code@]);
    while i < plan.actions.len()
        invariant
            i <= plan.actions.len(),
            views == action_views(plan.actions@),
            string_texts(reason_codes@) == report_codes(plan.reason_code@, views.take(i as int)),
            actions@ == plan.actions@.take(i as int),
            high == count_high_risk(views.take(i as int)),
            skipped == count_skipped(views.take(i as int)),
            high <= i,
            skipped <= i,
        decreases plan.actions.len() - i,
    {
        let action = &plan.actions[i];
        assert(views.take(i + 1).drop_last() =~= views.take(i as int));
        assert(views.take(i + 1).last() == action@);
        if let Some(code) = &action.reason_code {
            if !contains_text(&reason_codes, code) {
                let ghost before = string_texts(reason_codes@);
                reason_codes.push(code.clone());
                assert(string_texts(reason_codes@) =~= before.push(code@));
            }
        }
        if action.risk_level == RiskLevel::High {
            high = high + 1;
        }
        if action.action_status == ActionStatus::Skipped {
            skipped = skipped + 1;
        }
        actions.push(clone_action(action));
        assert(actions@ =~= plan.actions@.take(i + 1));
        i = i + 1;
    }
    assert(views.take(i as int) =~= views);
    assert(plan.actions@.take(i as int) =~= plan.actions@);
    ApplyReport {
        status: status.to_owned(),
        reason_codes,
        actions,
        summary: ReportSummary {
            planned_actions: plan.actions.len(),
            high_risk_actions: high,
            skipped_actions: skipped,
        },
    }
}


/// The reason codes of a report start with the plan's own code and hold each code once.
pub proof fn law_report_codes_distinct(first: Seq<char>, actions: Seq<ActionView>)
    ensures
        report_codes(first, actions).len() > 0,
        report_codes(first, actions)[0] == first,
        forall|i: int, j: int|
            0 <= i < j < report_codes(first, actions).len() ==> report_codes(first, actions)[i]
                != report_codes(first, actions)[j],
    decreases actions.len(),
{
    if actions.len() > 0 {
        law_report_codes_distinct(first, actions.drop_last());
    }
}

/// Every reason code an action carries appears among the report's reason codes.
pub proof fn law_report_codes_cover_actions(first: Seq<char>, actions: Seq<ActionView>)
    ensures
        forall|k: int|
            0 <= k < actions.len() && (#[trigger] actions[k]).reason_code is Some
                ==> report_codes(first, actions).contains(actions[k].reason_code->0),
    decreases actions.len(),
{
    if actions.len() > 0 {
        let before = actions.drop_last();
        law_report_codes_cover_actions(first, before);
        let prev = report_codes(first, before);
        let now = report_codes(first, actions);
        assert forall|x: Seq<char>| prev.contains(x) implies now.contains(x) by {
            let i = choose|i: int| 0 <= i < prev.len() && prev[i] == x;
            assert(now[i] == x);
        }
        assert forall|k: int|
            0 <= k < actions.len() && (#[trigger] actions[k]).reason_code is Some implies now.contains(
            actions[k].reason_code->0,
        ) by {
            if k < before.len() {
                assert(before[k] == actions[k]);
            } else if !prev.contains(actions[k].reason_code->0) {
                assert(now[prev.len() as int] == actions[k].reason_code->0);
            }
        }
    }
}

/// On a compositor that cannot reload, the report of any plan names the safe skip: its
/// reason codes include `SKIP_RELOAD_UNSUPPORTED`.
pub proof fn law_safe_skip_is_reported(first: Seq<char>, target_actions: Seq<ActionView>, compositor: Seq<char>)
    requires
        is_reload_unsupported(compositor),
    ensures
        report_codes(first, target_actions.push(reload_action(compositor))).contains(
            ReasonCode::SkipReloadUnsupported.label(),
        ),
{
    let actions = target_actions.push(reload_action(compositor));
    law_report_codes_cover_actions(first, actions);
    assert(actions[actions.len() - 1] == reload_action(compositor));
}

} // verus!
