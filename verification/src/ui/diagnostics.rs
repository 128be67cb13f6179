//! The plain-text rendering of a report.
use vstd::prelude::*;

use crate::engine::planner::{ActionStatus, ActionView, PlanAction, action_views};
use crate::engine::report::{string_texts, ApplyReport};
use crate::text::{chars_of, decimal, decimal_chars, join, join_chars, push_all, string_from_chars, views};

verus! {

/// The name of a status, as `{:?}` prints it.
pub open spec fn status_name(s: ActionStatus) -> Seq<char> {
    match s {
        ActionStatus::Planned => "Planned"@,
        ActionStatus::Applied => "Applied"@,
        ActionStatus::Skipped => "Skipped"@,
        ActionStatus::Failed => "Failed"@,
        ActionStatus::RolledBack => "RolledBack"@,
    }
}

fn status_name_exec(s: ActionStatus) -> (r: &'static str)
    ensures
        r@ == status_name(s),
{
    match s {
        ActionStatus::Planned => "Planned",
        ActionStatus::Applied => "Applied",
        ActionStatus::Skipped => "Skipped",
        ActionStatus::Failed => "Failed",
        ActionStatus::RolledBack => "RolledBack",
    }
}

/// An optional text, or `none` when absent.
pub open spec fn or_none(o: Option<Seq<char>>) -> Seq<char> {
    match o {
        Some(t) => t,
        None => "none"@,
    }
}

/// The line that describes one action.
pub open spec fn action_line(a: ActionView) -> Seq<char> {
    "action="@ + a.id + " target="@ + a.target + " status="@ + status_name(a.action_status)
        + " outcome="@ + a.expected_outcome + " reason="@ + or_none(a.reason_code)
        + " remediation_note="@ + or_none(a.remediation_note) + " remediation_command="@
        + or_none(a.remediation_command)
}

/// The lines of the rendering: status, action count, reason codes when there are any, then
/// one line per action.
pub open spec fn diagnostics_lines(report: ApplyReport) -> Seq<Seq<char>> {
    let head = seq![
        "status: "@ + report.status@,
        "planned_actions: "@ + decimal(report.summary.planned_actions as nat),
    ];
    let codes = string_texts(report.reason_codes@);
    let with_codes = if codes.len() > 0 {
        head.push("reason_codes: "@ + join(codes, ","@))
    } else {
        head
    };
    with_codes + action_views(report.actions@).map_values(|a: ActionView| action_line(a))
}

fn or_none_text(o: &Option<String>) -> (r: Vec<char>)
    ensures
        r@ == or_none(match *o {
            Some(s) => Some(s@),
            None => None,
        }),
{
    match o {
        Some(s) => chars_of(s.as_str()),
        None => chars_of("none"),
    }
}

fn action_line_exec(a: &PlanAction) -> (r: Vec<char>)
    ensures
        r@ == action_line(a@),
{
    let mut r = chars_of("action=");
    push_all(&mut r, &chars_of(a.id.as_str()));
    push_all(&mut r, &chars_of(" target="));
    push_all(&mut r, &chars_of(a.target.as_str()));
    push_all(&mut r, &chars_of(" status="));
    push_all(&mut r, &chars_of(status_name_exec(a.action_status)));
    push_all(&mut r, &chars_of(" outcome="));
    push_all(&mut r, &chars_of(a.expected_outcome.as_str()));
    push_all(&mut r, &chars_of(" reason="));
    push_all(&mut r, &or_none_text(&a.reason_code));
    push_all(&mut r, &chars_of(" remediation_note="));
    push_all(&mut r, &or_none_text(&a.remediation_note));
    push_all(&mut r, &chars_of(" remediation_command="));
    push_all(&mut r, &or_none_text(&a.remediation_command));
    r
}

/// Renders a report as lines of text joined by newlines.
pub fn render_diagnostics_text(report: &ApplyReport) -> (r: String)
    ensures
        r@ == join(diagnostics_lines(*report), seq!['\n']),
{
    let mut lines: Vec<Vec<char>> = Vec::new();
    let mut l1 = chars_of("status: ");
    push_all(&mut l1, &chars_of(report.status.as_str()));
    lines.push(l1);
    let mut l2 = chars_of("planned_actions: ");
    push_all(&mut l2, &decimal_chars(report.summary.planned_actions));
    lines.push(l2);
    let ghost codes = string_texts(report.reason_codes@);
    if report.reason_codes.len() > 0 {
        let mut code_list: Vec<Vec<char>> = Vec::new();
        let mut k: usize = 0;
        while k < report.reason_codes.len()
            invariant
                k <= report.reason_codes.len(),
                codes == string_texts(report.reason_codes@),
                views(code_list@) =~= codes.take(k as int),
            decreases report.reason_codes.len() - k,
        {
            let ghost before = views(code_list@);
            let c = chars_of(report.reason_codes[k].as_str());
            assert(c@ == codes[k as int]);
            code_list.push(c);
            assert(views(code_list@) =~= before.push(c@));
            assert(codes.take(k + 1) =~= codes.take(k as int).push(codes[k as int]));
            k = k + 1;
        }
        assert(codes.take(k as int) =~= codes);
        let mut comma: Vec<char> = Vec::new();
        comma.push(',');
        assert(comma@ =~= ","@) by {
            reveal_strlit(",");
        }
        let mut l3 = chars_of("reason_codes: ");
        push_all(&mut l3, &join_chars(&code_list, &comma));
        lines.push(l3);
    }
    let ghost head = views(lines@);
    let ghost avs = action_views(report.actions@);
    let mut i: usize = 0;
    while i < report.actions.len()
        invariant
            i <= report.actions.len(),
            avs == action_views(report.actions@),
            views(lines@) =~= head + avs.take(i as int).map_values(|a: ActionView| action_line(a)),
        decreases report.actions.len() - i,
    {
        let ghost before = views(lines@);
        let line = action_line_exec(&report.actions[i]);
        assert(avs[i as int] == report.actions@[i as int]@);
        lines.push(line);
        assert(views(lines@) =~= before.push(action_line(avs[i as int])));
        assert(avs.take(i + 1).map_values(|a: ActionView| action_line(a)) =~= avs.take(
            i as int,
        ).map_values(|a: ActionView| action_line(a)).push(action_line(avs[i as int])));
        i = i + 1;
    }
    assert(avs.take(i as int) =~= avs);
    assert(views(lines@) =~= diagnostics_lines(*report));
    let mut nl: Vec<char> = Vec::new();
    nl.push('\n');
    let text = join_chars(&lines, &nl);
    string_from_chars(text.as_slice())
}

/// Each action status is written as its own name, so different statuses read differently:
/// a skipped action never reads as planned.
pub proof fn law_status_names(a: ActionStatus, b: ActionStatus)
    ensures
        status_name(a) == status_name(b) ==> a == b,
        a == ActionStatus::Planned ==> status_name(a) == "Planned"@,
        a == ActionStatus::Applied ==> status_name(a) == "Applied"@,
        a == ActionStatus::Skipped ==> status_name(a) == "Skipped"@,
        a == ActionStatus::Failed ==> status_name(a) == "Failed"@,
        a == ActionStatus::RolledBack ==> status_name(a) == "RolledBack"@,
{
    reveal_strlit("Planned");
    reveal_strlit("Applied");
    reveal_strlit("Skipped");
    reveal_strlit("Failed");
    reveal_strlit("RolledBack");
    assert("Planned"@[0] == 'P' && "Applied"@[0] == 'A' && "Skipped"@[0] == 'S');
    assert("Failed"@.len() == 6 && "RolledBack"@.len() == 10 && "Planned"@.len() == 7);
    assert("Applied"@.len() == 7 && "Skipped"@.len() == 7);
    if status_name(a) == status_name(b) {
        assert(status_name(a).len() == status_name(b).len());
        assert(status_name(a)[0] == status_name(b)[0]);
    }
}

} // verus!
