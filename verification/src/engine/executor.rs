//! The decisions an apply makes between its file operations and adapter calls.
use vstd::prelude::*;

use crate::adapters::contract::{is_safe_skip_reason, safe_skip_reason, AdapterOutcome};
use crate::engine::paths::{join_path, path_join};
use crate::engine::planner::{ActionType, PlanAction};
use crate::engine::result::{ReasonCode, YaswitchError};
use crate::engine::template_engine::{appended, inject_managed_block, spliced};
use crate::engine::theme_spec::{Palette, TargetMode, TargetSpec, ThemeSpec};
use crate::text::{chars_of, push_all, string_from_chars};

verus! {

/// The template context of a palette: each base16 key with its colour.
pub open spec fn palette_pairs(p: Palette) -> Seq<(Seq<char>, Seq<char>)> {
    seq![
        ("base00"@, p.base00@),
        ("base01"@, p.base01@),
        ("base02"@, p.base02@),
        ("base03"@, p.base03@),
        ("base04"@, p.base04@),
        ("base05"@, p.base05@),
        ("base06"@, p.base06@),
        ("base07"@, p.base07@),
        ("base08"@, p.base08@),
        ("base09"@, p.base09@),
        ("base0A"@, p.base0a@),
        ("base0B"@, p.base0b@),
        ("base0C"@, p.base0c@),
        ("base0D"@, p.base0d@),
        ("base0E"@, p.base0e@),
        ("base0F"@, p.base0f@),
    ]
}

fn pair(key: &str, value: &String) -> (r: (String, String))
    ensures
        r.0@ == key@,
        r.1@ == value@,
{
    (key.to_owned(), value.clone())
}

/// The template context of a palette.
pub fn palette_context(palette: &Palette) -> (r: Vec<(String, String)>)
    ensures
        r@.map_values(|p: (String, String)| (p.0@, p.1@)) == palette_pairs(*palette),
{
    let mut r: Vec<(String, String)> = Vec::new();
    r.push(pair("base00", &palette.base00));
    r.push(pair("base01", &palette.base01));
    r.push(pair("base02", &palette.base02));
    r.push(pair("base03", &palette.base03));
    r.push(pair("base04", &palette.base04));
    r.push(pair("base05", &palette.base05));
    r.push(pair("base06", &palette.base06));
    r.push(pair("base07", &palette.base07));
    r.push(pair("base08", &palette.base08));
    r.push(pair("base09", &palette.base09));
    r.push(pair("base0A", &palette.base0a));
    r.push(pair("base0B", &palette.base0b));
    r.push(pair("base0C", &palette.base0c));
    r.push(pair("base0D", &palette.base0d));
    r.push(pair("base0E", &palette.base0e));
    r.push(pair("base0F", &palette.base0f));
    assert(r@.map_values(|p: (String, String)| (p.0@, p.1@)) =~= palette_pairs(*palette));
    r
}

/// The index of the first target of `spec` with the given id.
pub open spec fn target_index(targets: Seq<(String, TargetSpec)>, id: Seq<char>, i: int) -> bool {
    0 <= i < targets.len() && targets[i].0@ == id && forall|j: int|
        0 <= j < i ==> (#[trigger] targets[j]).0@ != id
}

/// The target a plan action names; an error when the theme has no such target.
pub fn find_target<'a>(spec: &'a ThemeSpec, id: &str) -> (r: Result<&'a TargetSpec, YaswitchError>)
    ensures
        (exists|i: int| target_index(spec.targets@, id@, i)) ==> (r matches Ok(t) && exists|i: int|
            target_index(spec.targets@, id@, i) && *t == spec.targets@[i].1),
        !(exists|i: int| 0 <= i < spec.targets@.len() && (#[trigger] spec.targets@[i]).0@ == id@)
            ==> (r matches Err(e) && e.code_of() == ReasonCode::PlannerInvalidTarget
            && e.message_of() == "target '"@ + id@ + "' not found in theme spec"@),
{
    let wanted = id.to_owned();
    let mut i: usize = 0;
    while i < spec.targets.len()
        invariant
            i <= spec.targets.len(),
            wanted@ == id@,
            forall|j: int| 0 <= j < i ==> (#[trigger] spec.targets@[j]).0@ != id@,
        decreases spec.targets.len() - i,
    {
        if spec.targets[i].0 == wanted {
            assert(target_index(spec.targets@, id@, i as int));
            return Ok(&spec.targets[i].1);
        }
        i = i + 1;
    }
    assert(!exists|k: int| target_index(spec.targets@, id@, k));
    let mut msg = chars_of("target '");
    push_all(&mut msg, &chars_of(id));
    push_all(&mut msg, &chars_of("' not found in theme spec"));
    let text = string_from_chars(msg.as_slice());
    Err(YaswitchError::new(ReasonCode::PlannerInvalidTarget, text.as_str()))
}

/// Where an apply reads one target's template and writes its output, and how.
#[derive(Debug, Clone, PartialEq, Eq)]
pub struct TargetWrite {
    pub template_path: String,
    pub destination_path: String,
    pub mode: TargetMode,
}

/// What an apply does for one plan action: nothing unless the action applies a target;
/// else that target's template and destination, both taken under the theme directory.
pub fn target_write(spec: &ThemeSpec, theme_dir: &str, action: &PlanAction) -> (r: Result<
    Option<TargetWrite>,
    YaswitchError,
>)
    ensures
        action.action_type != ActionType::ApplyTarget ==> r matches Ok(None),
        action.action_type == ActionType::ApplyTarget && (exists|i: int|
            target_index(spec.targets@, action.target@, i)) ==> (r matches Ok(Some(w))
            && exists|i: int|
            target_index(spec.targets@, action.target@, i) && w.template_path@ == path_join(
                theme_dir@,
                spec.targets@[i].1.template@,
            ) && w.destination_path@ == path_join(theme_dir@, spec.targets@[i].1.destination@)
                && w.mode == spec.targets@[i].1.mode),
        action.action_type == ActionType::ApplyTarget && !(exists|i: int|
            0 <= i < spec.targets@.len() && (#[trigger] spec.targets@[i]).0@ == action.target@)
            ==> (r matches Err(e) && e.code_of() == ReasonCode::PlannerInvalidTarget
            && e.message_of() == "target '"@ + action.target@ + "' not found in theme spec"@),
{
    if action.action_type != ActionType::ApplyTarget {
        return Ok(None);
    }
    match find_target(spec, action.target.as_str()) {
        Ok(t) => Ok(
            Some(
                TargetWrite {
                    template_path: join_path(theme_dir, t.template.as_str()),
                    destination_path: join_path(theme_dir, t.destination.as_str()),
                    mode: t.mode,
                },
            ),
        ),
        Err(e) => Err(e),
    }
}

/// The new content of a target's destination: the rendered text itself when the target
/// overwrites, or the existing content with the rendered text as its managed block when
/// it injects (a new block is appended when there is none).
pub fn next_target_content(mode: TargetMode, existing: &str, rendered: &str) -> (r: Result<
    String,
    YaswitchError,
>)
    ensures
        mode == TargetMode::Overwrite ==> (r matches Ok(s) && s@ == rendered@),
        mode == TargetMode::Inject ==> (r matches Ok(s) && s@ == match spliced(
            existing@,
            rendered@,
        ) {
            Some(t) => t,
            None => appended(existing@, rendered@),
        }),
{
    match mode {
        TargetMode::Inject => inject_managed_block(existing, rendered, true),
        TargetMode::Overwrite => Ok(rendered.to_owned()),
    }
}

/// What an apply does once the adapter has applied the theme.
#[derive(Debug, Clone, PartialEq, Eq)]
pub enum ApplyVerdict {
    /// Verify through the adapter, then commit (or roll back if verify fails).
    VerifyThenCommit,
    /// Commit without verifying: the adapter skipped for an accepted reason.
    Commit,
    /// Roll back and fail with this error.
    RollBack(YaswitchError),
}

/// Decides what follows the adapter's apply outcome for adapter `id`.
pub fn apply_verdict(id: &str, outcome: &AdapterOutcome) -> (v: ApplyVerdict)
    ensures
        match *outcome {
            AdapterOutcome::Applied => v == ApplyVerdict::VerifyThenCommit,
            AdapterOutcome::Skipped { reason } => if is_safe_skip_reason(reason) {
                v == ApplyVerdict::Commit
            } else {
                v matches ApplyVerdict::RollBack(e) && e.code_of()
                    == ReasonCode::AdapterCapabilityMissing && e.message_of() == "adapter '"@
                    + id@ + "' returned unsupported skip reason "@ + reason.label()
            },
        },
{
    match outcome {
        AdapterOutcome::Applied => ApplyVerdict::VerifyThenCommit,
        AdapterOutcome::Skipped { reason } => {
            if safe_skip_reason(*reason) {
                ApplyVerdict::Commit
            } else {
                let mut msg = chars_of("adapter '");
                push_all(&mut msg, &chars_of(id));
                push_all(&mut msg, &chars_of("' returned unsupported skip reason "));
                push_all(&mut msg, &chars_of(reason.as_str()));
                let text = string_from_chars(msg.as_slice());
                ApplyVerdict::RollBack(
                    YaswitchError::new(ReasonCode::AdapterCapabilityMissing, text.as_str()),
                )
            }
        },
    }
}

/// Where an apply stands between its file operations and adapter calls.
#[derive(Debug, Clone, PartialEq, Eq)]
pub enum ApplyState {
    /// Nothing has happened yet.
    Start,
    /// The targets are being rendered and written inside a transaction.
    Writing,
    /// The adapter is applying.
    Applying,
    /// The adapter is verifying.
    Verifying,
    /// The transaction is being committed.
    Committing,
    /// The transaction is being rolled back; the apply then fails with this error.
    RollingBack(YaswitchError),
    /// The apply has finished.
    Done,
}

/// What the host reports after carrying out an action.
#[derive(Debug, PartialEq, Eq)]
pub enum ApplyEvent {
    /// The apply starts, as a dry run or not.
    Begin { dry_run: bool },
    /// Every target of the plan was written.
    TargetsWritten,
    /// The adapter `adapter_id` returned `result` from its apply.
    AdapterApplied { adapter_id: String, result: Result<AdapterOutcome, YaswitchError> },
    /// The adapter returned this from its verify.
    AdapterVerified(Result<(), YaswitchError>),
    /// The transaction was committed.
    Committed,
    /// The transaction was rolled back.
    RolledBack,
    /// Once the transaction was open, rendering or writing a target failed with this error.
    TargetWriteFailed(YaswitchError),
    /// Loading the theme, opening the transaction, committing or rolling back failed with
    /// this error.
    IoFailed(YaswitchError),
}

/// What the host does next.
#[derive(Debug, Clone, PartialEq, Eq)]
pub enum ApplyAction {
    /// Return the report of the plan with status `planned`.
    FinishPlanned,
    /// Load the theme, open a transaction and write every target the plan applies.
    WriteTargets,
    /// Call the adapter's apply.
    CallApply,
    /// Call the adapter's verify.
    CallVerify,
    /// Commit the transaction.
    Commit,
    /// Roll the transaction back.
    RollBack,
    /// Return the report of the plan with status `applied`.
    FinishApplied,
    /// Fail the apply with this error.
    Fail(YaswitchError),
}

/// Whether `event` can follow the action taken in `state`.
pub open spec fn apply_event_expected(state: ApplyState, event: ApplyEvent) -> bool {
    match (state, event) {
        (ApplyState::Start, ApplyEvent::Begin { .. }) => true,
        (ApplyState::Writing, ApplyEvent::TargetsWritten) => true,
        (ApplyState::Writing, ApplyEvent::TargetWriteFailed(_)) => true,
        (ApplyState::Applying, ApplyEvent::AdapterApplied { .. }) => true,
        (ApplyState::Verifying, ApplyEvent::AdapterVerified(_)) => true,
        (ApplyState::Committing, ApplyEvent::Committed) => true,
        (ApplyState::RollingBack(_), ApplyEvent::RolledBack) => true,
        (ApplyState::Done, _) => false,
        (_, ApplyEvent::IoFailed(_)) => true,
        _ => false,
    }
}

/// Whether `event` can follow the action taken in `state`, as `apply_step` requires.
pub fn apply_event_fits(state: &ApplyState, event: &ApplyEvent) -> (b: bool)
    ensures
        b == apply_event_expected(*state, *event),
{
    match (state, event) {
        (ApplyState::Start, ApplyEvent::Begin { .. }) => true,
        (ApplyState::Writing, ApplyEvent::TargetsWritten) => true,
        (ApplyState::Writing, ApplyEvent::TargetWriteFailed(_)) => true,
        (ApplyState::Applying, ApplyEvent::AdapterApplied { .. }) => true,
        (ApplyState::Verifying, ApplyEvent::AdapterVerified(_)) => true,
        (ApplyState::Committing, ApplyEvent::Committed) => true,
        (ApplyState::RollingBack(_), ApplyEvent::RolledBack) => true,
        (ApplyState::Done, _) => false,
        (_, ApplyEvent::IoFailed(_)) => true,
        _ => false,
    }
}

/// One step of an apply: from where it stands and what the host just reported, where it
/// stands next and what the host does next. A dry run finishes with the planned report at
/// once; otherwise the targets are written, the adapter applies, an applied outcome is
/// verified, and the transaction is committed (then the applied report is returned) or,
/// after an adapter error or a skip for a reason adapters may not give, rolled back (then
/// the apply fails with that error). A target that fails to render or write once the
/// transaction is open rolls the transaction back too, and the apply fails with that
/// error. A failure with no transaction to undo (loading the theme, opening the
/// transaction) or of the commit or rollback itself fails the apply with its error.
pub fn apply_step(state: ApplyState, event: ApplyEvent) -> (r: (ApplyState, ApplyAction))
    requires
        apply_event_expected(state, event),
    ensures
        match (state, event) {
            (ApplyState::Start, ApplyEvent::Begin { dry_run }) => if dry_run {
                r == (ApplyState::Done, ApplyAction::FinishPlanned)
            } else {
                r == (ApplyState::Writing, ApplyAction::WriteTargets)
            },
            (ApplyState::Writing, ApplyEvent::TargetsWritten) => r == (
                ApplyState::Applying,
                ApplyAction::CallApply,
            ),
            (ApplyState::Writing, ApplyEvent::TargetWriteFailed(e)) => r == (
                ApplyState::RollingBack(e),
                ApplyAction::RollBack,
            ),
            (ApplyState::Applying, ApplyEvent::AdapterApplied { adapter_id, result }) => match result {
                Err(e) => r == (ApplyState::RollingBack(e), ApplyAction::RollBack),
                Ok(AdapterOutcome::Applied) => r == (ApplyState::Verifying, ApplyAction::CallVerify),
                Ok(AdapterOutcome::Skipped { reason }) => if is_safe_skip_reason(reason) {
                    r == (ApplyState::Committing, ApplyAction::Commit)
                } else {
                    &&& r.1 == ApplyAction::RollBack
                    &&& r.0 matches ApplyState::RollingBack(e) && e.code_of()
                        == ReasonCode::AdapterCapabilityMissing && e.message_of() == "adapter '"@
                        + adapter_id@ + "' returned unsupported skip reason "@ + reason.label()
                },
            },
            (ApplyState::Verifying, ApplyEvent::AdapterVerified(v)) => match v {
                Err(e) => r == (ApplyState::RollingBack(e), ApplyAction::RollBack),
                Ok(()) => r == (ApplyState::Committing, ApplyAction::Commit),
            },
            (ApplyState::Committing, ApplyEvent::Committed) => r == (
                ApplyState::Done,
                ApplyAction::FinishApplied,
            ),
            (ApplyState::RollingBack(e), ApplyEvent::RolledBack) => r == (
                ApplyState::Done,
                ApplyAction::Fail(e),
            ),
            (_, ApplyEvent::IoFailed(e)) => r == (ApplyState::Done, ApplyAction::Fail(e)),
            _ => true,
        },
{
    match (state, event) {
        (ApplyState::Start, ApplyEvent::Begin { dry_run }) => if dry_run {
            (ApplyState::Done, ApplyAction::FinishPlanned)
        } else {
            (ApplyState::Writing, ApplyAction::WriteTargets)
        },
        (ApplyState::Writing, ApplyEvent::TargetsWritten) => (
            ApplyState::Applying,
            ApplyAction::CallApply,
        ),
        (ApplyState::Writing, ApplyEvent::TargetWriteFailed(e)) => (
            ApplyState::RollingBack(e),
            ApplyAction::RollBack,
        ),
        (ApplyState::Applying, ApplyEvent::AdapterApplied { adapter_id, result }) => match result {
            Err(e) => (ApplyState::RollingBack(e), ApplyAction::RollBack),
            Ok(outcome) => match apply_verdict(adapter_id.as_str(), &outcome) {
                ApplyVerdict::VerifyThenCommit => (ApplyState::Verifying, ApplyAction::CallVerify),
                ApplyVerdict::Commit => (ApplyState::Committing, ApplyAction::Commit),
                ApplyVerdict::RollBack(e) => (ApplyState::RollingBack(e), ApplyAction::RollBack),
            },
        },
        (ApplyState::Verifying, ApplyEvent::AdapterVerified(v)) => match v {
            Err(e) => (ApplyState::RollingBack(e), ApplyAction::RollBack),
            Ok(()) => (ApplyState::Committing, ApplyAction::Commit),
        },
        (ApplyState::Committing, ApplyEvent::Committed) => (
            ApplyState::Done,
            ApplyAction::FinishApplied,
        ),
        (ApplyState::RollingBack(e), ApplyEvent::RolledBack) => (
            ApplyState::Done,
            ApplyAction::Fail(e),
        ),
        (_, ApplyEvent::IoFailed(e)) => (ApplyState::Done, ApplyAction::Fail(e)),
        (s, _) => (s, ApplyAction::FinishPlanned),
    }
}

} // verus!
