use yaswitch::engine::result::{ErrorCategory, ReasonCode, YaswitchError};

#[test]
fn result_codes_are_stable_and_serializable() {
    let error = YaswitchError::new(ReasonCode::ThemeSchemaInvalid, "missing required keys");
    let payload = error.payload();

    assert_eq!(payload.code, "THEME_SCHEMA_INVALID");
    assert_eq!(payload.category, "validation");
    assert_eq!(payload.message, "missing required keys");

    let mut object = serde_json::Map::new();
    object.insert("code".to_string(), serde_json::Value::String(payload.code.clone()));
    object.insert("category".to_string(), serde_json::Value::String(payload.category.clone()));
    object.insert("message".to_string(), serde_json::Value::String(payload.message.clone()));
    let json = serde_json::to_string(&serde_json::Value::Object(object))
        .expect("expected payload to serialize");
    assert!(json.contains("\"code\":\"THEME_SCHEMA_INVALID\""));
    assert!(json.contains("\"category\":\"validation\""));
}

#[test]
fn disallow_untyped_error_boundary() {
    fn accepts_typed_result(input: Result<(), YaswitchError>) -> Result<(), YaswitchError> {
        input
    }

    let typed_ok = accepts_typed_result(Ok(()));
    assert!(typed_ok.is_ok());

    let typed_err = accepts_typed_result(Err(YaswitchError::new(
        ReasonCode::PathOutsideAllowedRoot,
        "escape attempt",
    )));
    assert_eq!(
        typed_err.expect_err("expected typed error").code().as_str(),
        "PATH_OUTSIDE_ALLOWED_ROOT"
    );
}

#[test]
fn new_cycle_and_shortcut_reason_codes_are_stable() {
    assert_eq!(
        ReasonCode::ThemeCycleNoThemes.as_str(),
        "THEME_CYCLE_NO_THEMES"
    );
    assert_eq!(
        ReasonCode::ThemeCycleStateIoFailed.as_str(),
        "THEME_CYCLE_STATE_IO_FAILED"
    );
    assert_eq!(
        ReasonCode::ShortcutInstallFailed.as_str(),
        "SHORTCUT_INSTALL_FAILED"
    );
    assert_eq!(
        ReasonCode::ShortcutUnsupportedCompositor.as_str(),
        "SHORTCUT_UNSUPPORTED_COMPOSITOR"
    );
    assert_eq!(
        ReasonCode::SkipRestartPolicy.as_str(),
        "SKIP_RESTART_POLICY"
    );
    assert_eq!(
        ReasonCode::TransactionLockBusy.as_str(),
        "TRANSACTION_LOCK_BUSY"
    );
}

#[test]
fn reason_code_categories_follow_their_family() {
    assert_eq!(ReasonCode::ThemeSchemaInvalid.category(), ErrorCategory::Validation);
    assert_eq!(ReasonCode::SkipReloadUnsupported.category(), ErrorCategory::Compatibility);
    assert_eq!(ReasonCode::SkipRestartPolicy.category(), ErrorCategory::Compatibility);
    assert_eq!(ReasonCode::RollbackApplied.category(), ErrorCategory::Safety);
    assert_eq!(ReasonCode::PathNotAbsolute.category(), ErrorCategory::Safety);
    assert_eq!(ReasonCode::TransactionLockBusy.category(), ErrorCategory::Runtime);
    assert_eq!(ReasonCode::ThemeCycleNoThemes.category(), ErrorCategory::Validation);
    assert_eq!(ErrorCategory::Compatibility.as_str(), "compatibility");
    assert_eq!(ErrorCategory::Safety.as_str(), "safety");
    assert_eq!(ErrorCategory::Runtime.as_str(), "runtime");
}

#[test]
fn error_accessors_return_what_was_stored() {
    let error = YaswitchError::new(ReasonCode::WallpaperCommandUnsafe, "bad tool");
    assert_eq!(error.code(), ReasonCode::WallpaperCommandUnsafe);
    assert_eq!(error.category(), ErrorCategory::Runtime);
    assert_eq!(error.message(), "bad tool");
    assert_eq!(error.payload().category, "runtime");
    assert_eq!(yaswitch::crate_name(), "yaswitch");
}

#[test]
fn reason_code_labels_are_distinct_upper_snake_case() {
    let all = [
        ReasonCode::ThemeSchemaInvalid,
        ReasonCode::SkipReloadUnsupported,
        ReasonCode::SkipTargetOptional,
        ReasonCode::RollbackApplied,
        ReasonCode::TransactionIoFailed,
        ReasonCode::TransactionJournalInvalid,
        ReasonCode::TemplateKeyMissing,
        ReasonCode::MarkerNotFoundAppendDisabled,
        ReasonCode::AdapterCapabilityMissing,
        ReasonCode::PlannerDryRun,
        ReasonCode::PlannerNoActions,
        ReasonCode::PlannerInvalidTarget,
        ReasonCode::ReportSerializationFailed,
        ReasonCode::PlannerReady,
        ReasonCode::WallpaperPathMissing,
        ReasonCode::WallpaperUnsupportedFormat,
        ReasonCode::WallpaperStateWriteFailed,
        ReasonCode::WallpaperCommandUnsafe,
        ReasonCode::WallpaperDecodeFailed,
        ReasonCode::PaletteCacheIoFailed,
        ReasonCode::CompositorSocketUnavailable,
        ReasonCode::PathOutsideAllowedRoot,
        ReasonCode::PathNotAbsolute,
        ReasonCode::HomeDirectoryMissing,
        ReasonCode::EvidenceWriteFailed,
        ReasonCode::DoctorUsageInvalid,
        ReasonCode::DoctorOutputFailed,
        ReasonCode::ThemeCycleNoThemes,
        ReasonCode::ThemeCycleStateIoFailed,
        ReasonCode::ShortcutInstallFailed,
        ReasonCode::ShortcutUnsupportedCompositor,
        ReasonCode::SkipRestartPolicy,
        ReasonCode::TransactionLockBusy,
    ];
    for (i, a) in all.iter().enumerate() {
        let label = a.as_str();
        assert!(!label.is_empty());
        assert!(label.chars().all(|c| c.is_ascii_uppercase() || c == '_'));
        for b in &all[i + 1..] {
            assert_ne!(label, b.as_str());
        }
    }
}
