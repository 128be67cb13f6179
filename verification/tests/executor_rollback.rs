use yaswitch::adapters::contract::AdapterOutcome;
use yaswitch::engine::executor::{
    apply_event_fits, apply_step, apply_verdict, find_target, next_target_content, palette_context, target_write,
    ApplyAction, ApplyEvent, ApplyState, ApplyVerdict,
};
use yaswitch::engine::planner::{ActionStatus, ActionType, PlanAction, RiskLevel};
use yaswitch::engine::result::{ReasonCode, YaswitchError};
use yaswitch::engine::template_engine::render_template;
use yaswitch::engine::theme_spec::{
    Palette, TargetMode, TargetSpec, ThemeSpec, WallpaperMode, WallpaperSpec,
};

fn theme() -> ThemeSpec {
    let c = |s: &str| s.to_string();
    ThemeSpec {
        schema_version: 1,
        theme_name: "Minimal".to_string(),
        palette: Palette {
            base00: c("#000000"),
            base01: c("#111111"),
            base02: c("#222222"),
            base03: c("#333333"),
            base04: c("#444444"),
            base05: c("#555555"),
            base06: c("#666666"),
            base07: c("#777777"),
            base08: c("#888888"),
            base09: c("#999999"),
            base0a: c("#aaaaaa"),
            base0b: c("#bbbbbb"),
            base0c: c("#cccccc"),
            base0d: c("#dddddd"),
            base0e: c("#eeeeee"),
            base0f: c("#ffffff"),
        },
        targets: vec![(
            "kitty".to_string(),
            TargetSpec {
                template: "kitty.conf.template".to_string(),
                destination: "kitty.conf".to_string(),
                mode: TargetMode::Inject,
            },
        )],
        wallpaper: WallpaperSpec {
            path: "wallpaper.png".to_string(),
            mode: WallpaperMode::Fill,
        },
    }
}

#[test]
fn palette_renders_into_injected_block() {
    let spec = theme();
    let target = find_target(&spec, "kitty").expect("kitty target");
    let context = palette_context(&spec.palette);
    assert_eq!(context.len(), 16);
    assert_eq!(context[10], ("base0A".to_string(), "#aaaaaa".to_string()));
    let rendered = render_template("background {{base00}}\naccent {{base0A}}", &context)
        .expect("render");
    let next = next_target_content(target.mode, "", &rendered).expect("inject");
    assert!(next.contains("# yaswitch:begin"));
    assert!(next.contains("background #000000"));
    assert_eq!(
        next_target_content(TargetMode::Overwrite, "old", &rendered).unwrap(),
        rendered
    );
}

#[test]
fn unknown_action_target_is_an_error() {
    let spec = theme();
    let error = find_target(&spec, "waybar").expect_err("missing target");
    assert_eq!(error.code(), ReasonCode::PlannerInvalidTarget);
    assert_eq!(error.message(), "target 'waybar' not found in theme spec");
}

#[test]
fn adapter_outcomes_decide_commit_or_rollback() {
    assert_eq!(
        apply_verdict("a", &AdapterOutcome::Applied),
        ApplyVerdict::VerifyThenCommit
    );
    assert_eq!(
        apply_verdict(
            "a",
            &AdapterOutcome::Skipped {
                reason: ReasonCode::CompositorSocketUnavailable
            }
        ),
        ApplyVerdict::Commit
    );
    match apply_verdict(
        "cli",
        &AdapterOutcome::Skipped {
            reason: ReasonCode::PlannerReady,
        },
    ) {
        ApplyVerdict::RollBack(error) => {
            assert_eq!(error.code(), ReasonCode::AdapterCapabilityMissing);
            assert_eq!(
                error.message(),
                "adapter 'cli' returned unsupported skip reason PLANNER_READY"
            );
        }
        other => panic!("expected rollback, got {other:?}"),
    }
}

fn action(target: &str, action_type: ActionType) -> PlanAction {
    PlanAction {
        id: format!("apply-{target}"),
        target: target.to_string(),
        action_type,
        risk_level: RiskLevel::Medium,
        expected_outcome: String::new(),
        reason_code: None,
        action_status: ActionStatus::Planned,
        remediation_note: None,
        remediation_command: None,
    }
}

#[test]
fn only_apply_actions_write_targets_under_the_theme_dir() {
    let spec = theme();
    let write = target_write(&spec, "/themes/minimal", &action("kitty", ActionType::ApplyTarget))
        .expect("known target")
        .expect("apply action writes");
    assert_eq!(write.template_path, "/themes/minimal/kitty.conf.template");
    assert_eq!(write.destination_path, "/themes/minimal/kitty.conf");
    assert_eq!(write.mode, TargetMode::Inject);
    assert_eq!(
        target_write(&spec, "/themes/minimal", &action("kitty", ActionType::RenderTemplate)),
        Ok(None)
    );
    let error = target_write(&spec, "/themes/minimal", &action("gtk", ActionType::ApplyTarget))
        .expect_err("unknown target");
    assert_eq!(error.message(), "target 'gtk' not found in theme spec");
}

#[test]
fn apply_steps_follow_dry_run_and_commit_paths() {
    assert_eq!(
        apply_step(ApplyState::Start, ApplyEvent::Begin { dry_run: true }),
        (ApplyState::Done, ApplyAction::FinishPlanned)
    );
    let (s, a) = apply_step(ApplyState::Start, ApplyEvent::Begin { dry_run: false });
    assert_eq!((s.clone(), a), (ApplyState::Writing, ApplyAction::WriteTargets));
    let (s, a) = apply_step(s, ApplyEvent::TargetsWritten);
    assert_eq!((s.clone(), a), (ApplyState::Applying, ApplyAction::CallApply));
    let (s, a) = apply_step(
        s,
        ApplyEvent::AdapterApplied { adapter_id: "kitty".to_string(), result: Ok(AdapterOutcome::Applied) },
    );
    assert_eq!((s.clone(), a), (ApplyState::Verifying, ApplyAction::CallVerify));
    let (s, a) = apply_step(s, ApplyEvent::AdapterVerified(Ok(())));
    assert_eq!((s.clone(), a), (ApplyState::Committing, ApplyAction::Commit));
    assert_eq!(
        apply_step(s, ApplyEvent::Committed),
        (ApplyState::Done, ApplyAction::FinishApplied)
    );
    let (s, a) = apply_step(
        ApplyState::Applying,
        ApplyEvent::AdapterApplied {
            adapter_id: "dwl".to_string(),
            result: Ok(AdapterOutcome::Skipped { reason: ReasonCode::SkipReloadUnsupported }),
        },
    );
    assert_eq!((s, a), (ApplyState::Committing, ApplyAction::Commit));
}

#[test]
fn apply_steps_roll_back_on_adapter_failure() {
    let failure = YaswitchError::new(ReasonCode::CompositorSocketUnavailable, "no socket");
    let (s, a) = apply_step(
        ApplyState::Applying,
        ApplyEvent::AdapterApplied { adapter_id: "sway".to_string(), result: Err(failure.clone()) },
    );
    assert_eq!((s.clone(), a), (ApplyState::RollingBack(failure.clone()), ApplyAction::RollBack));
    assert_eq!(
        apply_step(s, ApplyEvent::RolledBack),
        (ApplyState::Done, ApplyAction::Fail(failure.clone()))
    );
    let (s, a) = apply_step(ApplyState::Verifying, ApplyEvent::AdapterVerified(Err(failure.clone())));
    assert_eq!((s, a), (ApplyState::RollingBack(failure.clone()), ApplyAction::RollBack));
    let (s, a) = apply_step(
        ApplyState::Applying,
        ApplyEvent::AdapterApplied {
            adapter_id: "odd".to_string(),
            result: Ok(AdapterOutcome::Skipped { reason: ReasonCode::ThemeSchemaInvalid }),
        },
    );
    assert_eq!(a, ApplyAction::RollBack);
    match s {
        ApplyState::RollingBack(e) => {
            assert_eq!(e.code(), ReasonCode::AdapterCapabilityMissing);
            assert_eq!(e.message(), "adapter 'odd' returned unsupported skip reason THEME_SCHEMA_INVALID");
        }
        other => panic!("unexpected state {other:?}"),
    }
    let io = YaswitchError::new(ReasonCode::TransactionIoFailed, "disk full");
    assert_eq!(
        apply_step(ApplyState::Writing, ApplyEvent::IoFailed(io.clone())),
        (ApplyState::Done, ApplyAction::Fail(io))
    );
}

#[test]
fn a_failed_target_write_rolls_the_transaction_back() {
    let failure = YaswitchError::new(ReasonCode::PathOutsideAllowedRoot, "outside");
    assert!(apply_event_fits(&ApplyState::Writing, &ApplyEvent::TargetWriteFailed(failure.clone())));
    let (s, a) = apply_step(ApplyState::Writing, ApplyEvent::TargetWriteFailed(failure.clone()));
    assert_eq!((s.clone(), a), (ApplyState::RollingBack(failure.clone()), ApplyAction::RollBack));
    assert_eq!(apply_step(s, ApplyEvent::RolledBack), (ApplyState::Done, ApplyAction::Fail(failure)));
    assert!(!apply_event_fits(&ApplyState::Start, &ApplyEvent::RolledBack));
    assert!(!apply_event_fits(&ApplyState::Done, &ApplyEvent::Committed));
}
