//! The preflight plan: what an apply will do, target by target, before anything is written.
use vstd::prelude::*;

use crate::engine::result::{ReasonCode, YaswitchError};
use crate::engine::theme_spec::{distinct_target_ids, TargetMode, TargetSpec, ThemeSpec};
use crate::text::{chars_eq, chars_of, lower, to_lower, string_from_chars};

verus! {

/// Whether a plan could be made.
#[derive(Debug, Clone, Copy, PartialEq, Eq, Structural)]
pub enum PlanStatus {
    Planned,
    Invalid,
}

/// What a planned action does.
#[derive(Debug, Clone, Copy, PartialEq, Eq, Structural)]
pub enum ActionType {
    RenderTemplate,
    ApplyTarget,
    Reload,
    SafeSkip,
}

/// How much damage a failed action could do.
#[derive(Debug, Clone, Copy, PartialEq, Eq, Structural)]
pub enum RiskLevel {
    Low,
    Medium,
    High,
}

/// Where an action stands.
#[derive(Debug, Clone, Copy, PartialEq, Eq, Structural)]
pub enum ActionStatus {
    Planned,
    Applied,
    Skipped,
    Failed,
    RolledBack,
}

/// One step of a plan.
#[derive(Debug, Clone, PartialEq, Eq)]
pub struct PlanAction {
    pub id: String,
    pub target: String,
    pub action_type: ActionType,
    pub risk_level: RiskLevel,
    pub expected_outcome: String,
    pub reason_code: Option<String>,
    pub action_status: ActionStatus,
    pub remediation_note: Option<String>,
    pub remediation_command: Option<String>,
}

/// A plan action with its text as character sequences.
pub struct ActionView {
    pub id: Seq<char>,
    pub target: Seq<char>,
    pub action_type: ActionType,
    pub risk_level: RiskLevel,
    pub expected_outcome: Seq<char>,
    pub reason_code: Option<Seq<char>>,
    pub action_status: ActionStatus,
    pub remediation_note: Option<Seq<char>>,
    pub remediation_command: Option<Seq<char>>,
}

/// The text of an optional string.
pub open spec fn opt_text(o: Option<String>) -> Option<Seq<char>> {
    match o {
        Some(s) => Some(s@),
        None => None,
    }
}

impl View for PlanAction {
    type V = ActionView;

    open spec fn view(&self) -> ActionView {
        ActionView {
            id: self.id@,
            target: self.target@,
            action_type: self.action_type,
            risk_level: self.risk_level,
            expected_outcome: self.expected_outcome@,
            reason_code: opt_text(self.reason_code),
            action_status: self.action_status,
            remediation_note: opt_text(self.remediation_note),
            remediation_command: opt_text(self.remediation_command),
        }
    }
}

/// The views of a sequence of actions.
pub open spec fn action_views(actions: Seq<PlanAction>) -> Seq<ActionView> {
    actions.map_values(|a: PlanAction| a@)
}

/// The plan for one theme and compositor.
#[derive(Debug, Clone, PartialEq, Eq)]
pub struct PreflightPlan {
    pub status: PlanStatus,
    pub dry_run: bool,
    pub reason_code: String,
    pub actions: Vec<PlanAction>,
}

/// What to plan: the theme directory, the compositor, an optional single target and
/// whether the run is a dry run.
#[derive(Debug, Clone, PartialEq, Eq)]
pub struct PlannerOptions {
    pub theme_dir: String,
    pub compositor: Option<String>,
    pub target_filter: Option<String>,
    pub dry_run: bool,
}

/// Whether a target id names a VSCode target, in any letter case.
pub open spec fn is_vscode_id(id: Seq<char>) -> bool {
    lower(id) == "vscode"@ || lower(id) == "vscode-insiders"@
}

/// An optional text that is present only for VSCode targets.
pub open spec fn vscode_only(id: Seq<char>, text: Seq<char>) -> Option<Seq<char>> {
    if is_vscode_id(id) {
        Some(text)
    } else {
        None
    }
}

/// The action that renders a target's template.
pub open spec fn render_action(id: Seq<char>, t: TargetSpec) -> ActionView {
    ActionView {
        id: "render-"@ + id,
        target: id,
        action_type: ActionType::RenderTemplate,
        risk_level: RiskLevel::Low,
        expected_outcome: "render template "@ + t.template@,
        reason_code: None,
        action_status: ActionStatus::Planned,
        remediation_note: vscode_only(
            id,
            "VSCode targets may require an application restart to fully apply all theme changes."@,
        ),
        remediation_command: vscode_only(
            id,
            "Restart VSCode (or VSCode Insiders) after apply if colors did not refresh."@,
        ),
    }
}

/// The risk of writing a target: injecting is medium, overwriting is high.
pub open spec fn apply_risk(mode: TargetMode) -> RiskLevel {
    match mode {
        TargetMode::Inject => RiskLevel::Medium,
        TargetMode::Overwrite => RiskLevel::High,
    }
}

/// The action that writes a target's destination.
pub open spec fn apply_action(id: Seq<char>, t: TargetSpec) -> ActionView {
    ActionView {
        id: "apply-"@ + id,
        target: id,
        action_type: ActionType::ApplyTarget,
        risk_level: apply_risk(t.mode),
        expected_outcome: "update "@ + t.destination@,
        reason_code: None,
        action_status: ActionStatus::Planned,
        remediation_note: vscode_only(
            id,
            "VSCode targets can require a process restart to guarantee full theme reload."@,
        ),
        remediation_command: vscode_only(
            id,
            "Run `yaswitch apply --theme <theme-path> --target vscode --dry-run --json` to confirm action details before restart."@,
        ),
    }
}

/// Whether the target filter lets a target through.
pub open spec fn selected(id: Seq<char>, filter: Option<String>) -> bool {
    match filter {
        None => true,
        Some(f) => f@ == id,
    }
}

/// The render and apply actions of every selected target, in target order.
pub open spec fn target_actions(targets: Seq<(String, TargetSpec)>, filter: Option<String>) -> Seq<
    ActionView,
>
    decreases targets.len(),
{
    if targets.len() == 0 {
        Seq::empty()
    } else {
        let (id, t) = targets.last();
        let before = target_actions(targets.drop_last(), filter);
        if selected(id@, filter) {
            before + seq![render_action(id@, t), apply_action(id@, t)]
        } else {
            before
        }
    }
}

/// The compositor to plan for, in lower case; `sway` when none is given.
pub open spec fn planned_compositor(options: PlannerOptions) -> Seq<char> {
    match options.compositor {
        Some(c) => lower(c@),
        None => "sway"@,
    }
}

/// The compositors the planner knows.
pub open spec fn is_supported_compositor(c: Seq<char>) -> bool {
    c == "sway"@ || c == "hyprland"@ || c == "niri"@ || c == "dwl"@ || c == "mangowm"@
}

/// The compositors that cannot reload a theme.
pub open spec fn is_reload_unsupported(c: Seq<char>) -> bool {
    c == "dwl"@ || c == "mangowm"@
}

/// The last action of a plan: a reload, or a safe skip where reload is unsupported.
pub open spec fn reload_action(c: Seq<char>) -> ActionView {
    if is_reload_unsupported(c) {
        ActionView {
            id: "reload-"@ + c,
            target: c,
            action_type: ActionType::SafeSkip,
            risk_level: RiskLevel::Low,
            expected_outcome: "skip unsupported reload while preserving apply success"@,
            reason_code: Some(ReasonCode::SkipReloadUnsupported.label()),
            action_status: ActionStatus::Skipped,
            remediation_note: Some(
                "Reload is unsupported for this compositor; switch manually or use a Tier-1 compositor."@,
            ),
            remediation_command: Some("yaswitch apply --theme <theme-path> --compositor sway --json"@),
        }
    } else {
        ActionView {
            id: "reload-"@ + c,
            target: c,
            action_type: ActionType::Reload,
            risk_level: RiskLevel::Medium,
            expected_outcome: "reload compositor-aware components"@,
            reason_code: None,
            action_status: ActionStatus::Planned,
            remediation_note: None,
            remediation_command: None,
        }
    }
}

/// Whether some target of the theme has the id the filter asks for.
pub open spec fn filter_matches(targets: Seq<(String, TargetSpec)>, filter: Option<String>) -> bool {
    exists|i: int| 0 <= i < targets.len() && selected((#[trigger] targets[i]).0@, filter)
}

/// The targets the filter lets through, in target order.
pub open spec fn selected_targets(targets: Seq<(String, TargetSpec)>, filter: Option<String>) -> Seq<
    (String, TargetSpec),
>
    decreases targets.len(),
{
    if targets.len() == 0 {
        Seq::empty()
    } else {
        let before = selected_targets(targets.drop_last(), filter);
        if selected(targets.last().0@, filter) {
            before.push(targets.last())
        } else {
            before
        }
    }
}

proof fn lemma_selected_actions(targets: Seq<(String, TargetSpec)>, filter: Option<String>)
    ensures
        target_actions(targets, filter).len() == 2 * selected_targets(targets, filter).len(),
        forall|k: int|
            0 <= k < selected_targets(targets, filter).len() ==> target_actions(targets, filter)[2 * k]
                == render_action(
                (#[trigger] selected_targets(targets, filter)[k]).0@,
                selected_targets(targets, filter)[k].1,
            ) && target_actions(targets, filter)[2 * k + 1] == apply_action(
                selected_targets(targets, filter)[k].0@,
                selected_targets(targets, filter)[k].1,
            ),
    decreases targets.len(),
{
    if targets.len() > 0 {
        lemma_selected_actions(targets.drop_last(), filter);
        let sel0 = selected_targets(targets.drop_last(), filter);
        let sel = selected_targets(targets, filter);
        let acts0 = target_actions(targets.drop_last(), filter);
        let acts = target_actions(targets, filter);
        assert forall|k: int| 0 <= k < sel.len() implies acts[2 * k] == render_action(
            (#[trigger] sel[k]).0@,
            sel[k].1,
        ) && acts[2 * k + 1] == apply_action(sel[k].0@, sel[k].1) by {
            if k < sel0.len() {
                assert(sel[k] == sel0[k]);
                assert(acts[2 * k] == acts0[2 * k]);
                assert(acts[2 * k + 1] == acts0[2 * k + 1]);
            }
        }
    }
}

/// Whether every entry of `sel` is a target the filter lets through.
pub open spec fn drawn_from(
    sel: Seq<(String, TargetSpec)>,
    targets: Seq<(String, TargetSpec)>,
    filter: Option<String>,
) -> bool {
    forall|k: int|
        0 <= k < sel.len() ==> targets.contains(#[trigger] sel[k]) && selected(sel[k].0@, filter)
}

/// Whether every target the filter lets through is an entry of `sel`.
pub open spec fn covers(
    sel: Seq<(String, TargetSpec)>,
    targets: Seq<(String, TargetSpec)>,
    filter: Option<String>,
) -> bool {
    forall|i: int|
        0 <= i < targets.len() && selected((#[trigger] targets[i]).0@, filter) ==> sel.contains(
            targets[i],
        )
}

proof fn lemma_selected_members(targets: Seq<(String, TargetSpec)>, filter: Option<String>)
    ensures
        drawn_from(selected_targets(targets, filter), targets, filter),
        covers(selected_targets(targets, filter), targets, filter),
    decreases targets.len(),
{
    if targets.len() > 0 {
        let rest = targets.drop_last();
        lemma_selected_members(rest, filter);
        let sel0 = selected_targets(rest, filter);
        let sel = selected_targets(targets, filter);
        let last = targets.len() - 1;
        assert(targets.last() == targets[last]);
        assert forall|k: int| 0 <= k < sel.len() implies targets.contains(#[trigger] sel[k])
            && selected(sel[k].0@, filter) by {
            if k < sel0.len() {
                assert(sel[k] == sel0[k]);
                assert(rest.contains(sel0[k]));
                let i = choose|i: int| 0 <= i < rest.len() && rest[i] == sel0[k];
                assert(rest[i] == targets[i]);
            } else {
                assert(sel[k] == targets[last]);
            }
        }
        assert forall|i: int| 0 <= i < targets.len() && selected((#[trigger] targets[i]).0@, filter)
            implies sel.contains(targets[i]) by {
            if i < last {
                assert(rest[i] == targets[i]);
                assert(sel0.contains(rest[i]));
                let k = choose|k: int| 0 <= k < sel0.len() && sel0[k] == rest[i];
                assert(sel[k] == sel0[k]);
            } else {
                assert(sel[sel.len() - 1] == targets[last]);
            }
        }
    }
}

proof fn lemma_selected_distinct(targets: Seq<(String, TargetSpec)>, filter: Option<String>)
    requires
        distinct_target_ids(targets),
    ensures
        distinct_target_ids(selected_targets(targets, filter)),
    decreases targets.len(),
{
    if targets.len() > 0 {
        let rest = targets.drop_last();
        assert(distinct_target_ids(rest)) by {
            assert forall|i: int, j: int| 0 <= i < j < rest.len() implies (#[trigger] rest[i]).0@
                != (#[trigger] rest[j]).0@ by {
                assert(rest[i] == targets[i] && rest[j] == targets[j]);
            }
        }
        lemma_selected_distinct(rest, filter);
        lemma_selected_members(rest, filter);
        let sel0 = selected_targets(rest, filter);
        let sel = selected_targets(targets, filter);
        let last = targets.len() - 1;
        assert(targets.last() == targets[last]);
        if selected(targets[last].0@, filter) {
            assert forall|i: int, j: int| 0 <= i < j < sel.len() implies (#[trigger] sel[i]).0@
                != (#[trigger] sel[j]).0@ by {
                assert(sel[i] == sel0[i]);
                if j < sel0.len() {
                    assert(sel[j] == sel0[j]);
                } else {
                    assert(rest.contains(sel0[i]));
                    let a = choose|a: int| 0 <= a < rest.len() && rest[a] == sel0[i];
                    assert(rest[a] == targets[a]);
                    assert(targets[a].0@ != targets[last].0@);
                }
            }
        }
    }
}

/// The shape of every plan for a theme whose target ids are distinct (as every theme that
/// passes `validate_theme_spec` has them): a render action
/// directly followed by an apply action for each selected target, each selected target
/// once and in target order, then the reload (or safe skip) of the compositor, so
/// `2 * n + 1` actions for `n` selected targets.
pub proof fn law_plan_shape(targets: Seq<(String, TargetSpec)>, filter: Option<String>, compositor: Seq<char>)
    requires
        distinct_target_ids(targets),
    ensures
        ({
            let sel = selected_targets(targets, filter);
            let acts = target_actions(targets, filter).push(reload_action(compositor));
            &&& acts.len() == 2 * sel.len() + 1
            &&& forall|k: int|
                0 <= k < sel.len() ==> acts[2 * k] == render_action((#[trigger] sel[k]).0@, sel[k].1)
                    && acts[2 * k + 1] == apply_action(sel[k].0@, sel[k].1)
            &&& acts.last() == reload_action(compositor)
            &&& distinct_target_ids(sel)
            &&& drawn_from(sel, targets, filter)
            &&& covers(sel, targets, filter)
        }),
{
    lemma_selected_actions(targets, filter);
    lemma_selected_members(targets, filter);
    lemma_selected_distinct(targets, filter);
    let sel = selected_targets(targets, filter);
    let acts0 = target_actions(targets, filter);
    let acts = acts0.push(reload_action(compositor));
    assert forall|k: int| 0 <= k < sel.len() implies acts[2 * k] == render_action((#[trigger] sel[k]).0@, sel[k].1)
        && acts[2 * k + 1] == apply_action(sel[k].0@, sel[k].1) by {
        assert(acts[2 * k] == acts0[2 * k]);
        assert(acts[2 * k + 1] == acts0[2 * k + 1]);
    }
}

/// Only dwl and mangowm skip the reload: on every other compositor (sway, Hyprland and
/// niri among them) the plan ends with a planned, medium-risk reload that carries no
/// reason code, and on dwl and mangowm with a low-risk skipped action that carries
/// `SKIP_RELOAD_UNSUPPORTED`.
pub proof fn law_only_tier_two_skips_reload(c: Seq<char>)
    ensures
        !(c == "dwl"@ || c == "mangowm"@) ==> {
            let a = reload_action(c);
            &&& a.action_type == ActionType::Reload
            &&& a.action_status == ActionStatus::Planned
            &&& a.risk_level == RiskLevel::Medium
            &&& a.reason_code is None
            &&& a.id == "reload-"@ + c
            &&& a.target == c
        },
        (c == "dwl"@ || c == "mangowm"@) ==> {
            let a = reload_action(c);
            &&& a.action_type == ActionType::SafeSkip
            &&& a.action_status == ActionStatus::Skipped
            &&& a.risk_level == RiskLevel::Low
            &&& a.reason_code == Some("SKIP_RELOAD_UNSUPPORTED"@)
            &&& a.id == "reload-"@ + c
            &&& a.target == c
        },
{
}

fn text(s: &str) -> (r: String)
    ensures
        r@ == s@,
{
    s.to_owned()
}

fn concat(a: &str, b: &str) -> (r: String)
    ensures
        r@ == a@ + b@,
{
    let mut r = a.to_owned();
    r.append(b);
    r
}

fn vscode_text(is_vscode: bool, s: &str) -> (r: Option<String>)
    ensures
        is_vscode ==> (r matches Some(t) && t@ == s@),
        !is_vscode ==> r is None,
{
    if is_vscode {
        Some(text(s))
    } else {
        None
    }
}

fn is_vscode_target(id: &str) -> (b: bool)
    ensures
        b == is_vscode_id(id@),
{
    let l = to_lower(&chars_of(id));
    chars_eq(&l, &chars_of("vscode")) || chars_eq(&l, &chars_of("vscode-insiders"))
}

fn make_reload_action(c: &str) -> (a: PlanAction)
    ensures
        a@ == reload_action(c@),
{
    let cv = chars_of(c);
    if chars_eq(&cv, &chars_of("dwl")) || chars_eq(&cv, &chars_of("mangowm")) {
        PlanAction {
            id: concat("reload-", c),
            target: text(c),
            action_type: ActionType::SafeSkip,
            risk_level: RiskLevel::Low,
            expected_outcome: text("skip unsupported reload while preserving apply success"),
            reason_code: Some(text(ReasonCode::SkipReloadUnsupported.as_str())),
            action_status: ActionStatus::Skipped,
            remediation_note: Some(
                text(
                    "Reload is unsupported for this compositor; switch manually or use a Tier-1 compositor.",
                ),
            ),
            remediation_command: Some(
                text("yaswitch apply --theme <theme-path> --compositor sway --json"),
            ),
        }
    } else {
        PlanAction {
            id: concat("reload-", c),
            target: text(c),
            action_type: ActionType::Reload,
            risk_level: RiskLevel::Medium,
            expected_outcome: text("reload compositor-aware components"),
            reason_code: None,
            action_status: ActionStatus::Planned,
            remediation_note: None,
            remediation_command: None,
        }
    }
}

/// Plans the apply of `spec`, the theme loaded from `options.theme_dir`: a render and an
/// apply action for each selected target, then a reload (or a safe skip for compositors
/// that cannot reload).
pub fn build_preflight_plan(options: &PlannerOptions, spec: &ThemeSpec) -> (r: Result<
    PreflightPlan,
    YaswitchError,
>)
    ensures
        ({
            let c = planned_compositor(*options);
            if options.target_filter is Some && !filter_matches(
                spec.targets@,
                options.target_filter,
            ) {
                r matches Err(e) && e.code_of() == ReasonCode::PlannerInvalidTarget
                    && e.message_of() == "requested --target did not match any theme target"@
            } else if !is_supported_compositor(c) {
                r matches Err(e) && e.code_of() == ReasonCode::PlannerInvalidTarget
                    && e.message_of() == "unsupported compositor '"@ + c + "'"@
            } else {
                r matches Ok(plan) && plan.status == PlanStatus::Planned && plan.dry_run
                    == options.dry_run && plan.reason_code@ == (if options.dry_run {
                    ReasonCode::PlannerDryRun.label()
                } else {
                    ReasonCode::PlannerReady.label()
                }) && action_views(plan.actions@) == target_actions(
                    spec.targets@,
                    options.target_filter,
                ).push(reload_action(c))
            }
        }),
{
    let ghost targets = spec.targets@;
    let mut actions: Vec<PlanAction> = Vec::new();
    let mut any_apply = false;
    let mut i: usize = 0;
    while i < spec.targets.len()
        invariant
            i <= spec.targets.len(),
            targets == spec.targets@,
            action_views(actions@) == target_actions(targets.take(i as int), options.target_filter),
            any_apply == exists|k: int|
                0 <= k < i && selected((#[trigger] targets[k]).0@, options.target_filter),
        decreases spec.targets.len() - i,
    {
        let id = &spec.targets[i].0;
        let target = &spec.targets[i].1;
        assert(targets.take(i + 1).drop_last() =~= targets.take(i as int));
        let keep = match &options.target_filter {
            Some(f) => *f == *id,
            None => true,
        };
        if keep {
            let is_vscode = is_vscode_target(id.as_str());
            let ghost before = action_views(actions@);
            let render = PlanAction {
                id: concat("render-", id.as_str()),
                target: id.clone(),
                action_type: ActionType::RenderTemplate,
                risk_level: RiskLevel::Low,
                expected_outcome: concat("render template ", target.template.as_str()),
                reason_code: None,
                action_status: ActionStatus::Planned,
                remediation_note: vscode_text(
                    is_vscode,
                    "VSCode targets may require an application restart to fully apply all theme changes.",
                ),
                remediation_command: vscode_text(
                    is_vscode,
                    "Restart VSCode (or VSCode Insiders) after apply if colors did not refresh.",
                ),
            };
            let apply_risk_level = match target.mode {
                TargetMode::Inject => RiskLevel::Medium,
                TargetMode::Overwrite => RiskLevel::High,
            };
            let apply = PlanAction {
                id: concat("apply-", id.as_str()),
                target: id.clone(),
                action_type: ActionType::ApplyTarget,
                risk_level: apply_risk_level,
                expected_outcome: concat("update ", target.destination.as_str()),
                reason_code: None,
                action_status: ActionStatus::Planned,
                remediation_note: vscode_text(
                    is_vscode,
                    "VSCode targets can require a process restart to guarantee full theme reload.",
                ),
                remediation_command: vscode_text(
                    is_vscode,
                    "Run `yaswitch apply --theme <theme-path> --target vscode --dry-run --json` to confirm action details before restart.",
                ),
            };
            assert(render@ == render_action(id@, *target));
            assert(apply@ == apply_action(id@, *target));
            actions.push(render);
            actions.push(apply);
            assert(action_views(actions@) =~= before + seq![
                render_action(id@, *target),
                apply_action(id@, *target),
            ]);
            any_apply = true;
        }
        i = i + 1;
    }
    assert(targets.take(i as int) =~= targets);
    if options.target_filter.is_some() && !any_apply {
        return Err(
            YaswitchError::new(
                ReasonCode::PlannerInvalidTarget,
                "requested --target did not match any theme target",
            ),
        );
    }
    let compositor_chars = match &options.compositor {
        Some(c) => to_lower(&chars_of(c.as_str())),
        None => chars_of("sway"),
    };
    let compositor = string_from_chars(compositor_chars.as_slice());
    let supported = chars_eq(&compositor_chars, &chars_of("sway")) || chars_eq(
        &compositor_chars,
        &chars_of("hyprland"),
    ) || chars_eq(&compositor_chars, &chars_of("niri")) || chars_eq(
        &compositor_chars,
        &chars_of("dwl"),
    ) || chars_eq(&compositor_chars, &chars_of("mangowm"));
    if !supported {
        let mut msg = text("unsupported compositor '");
        msg.append(compositor.as_str());
        msg.append("'");
        return Err(YaswitchError::new(ReasonCode::PlannerInvalidTarget, msg.as_str()));
    }
    let ghost before = action_views(actions@);
    let reload = make_reload_action(compositor.as_str());
    actions.push(reload);
    assert(action_views(actions@) =~= before.push(reload_action(planned_compositor(*options))));
    let reason_code = if options.dry_run {
        text(ReasonCode::PlannerDryRun.as_str())
    } else {
        text(ReasonCode::PlannerReady.as_str())
    };
    Ok(PreflightPlan { status: PlanStatus::Planned, dry_run: options.dry_run, reason_code, actions })
}

} // verus!
