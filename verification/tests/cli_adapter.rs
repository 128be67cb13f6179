use yaswitch::adapters::cli::CliAdapter;
use yaswitch::adapters::contract::{AdapterOutcome, ThemeAdapter};
use yaswitch::engine::cycle::{cycle_state_path, themes_root_dir};
use yaswitch::engine::paths::RuntimePaths;
use yaswitch::engine::result::{ReasonCode, YaswitchError};

#[test]
fn cli_adapter_applies_on_reloading_compositors() {
    let adapter = CliAdapter::from_compositor(Some("Sway"));
    assert_eq!(adapter.id(), "cli-adapter");
    assert!(adapter.capabilities().reload_supported);
    assert_eq!(adapter.apply(), Ok(AdapterOutcome::Applied));
    assert!(adapter.plan().is_ok());
    assert!(adapter.verify().is_ok());
    assert!(adapter.rollback().is_ok());
}

#[test]
fn cli_adapter_skips_reload_on_tier_two_compositors() {
    for name in ["dwl", "MangoWM"] {
        let adapter = CliAdapter::from_compositor(Some(name));
        assert!(!adapter.capabilities().reload_supported);
        assert_eq!(
            adapter.apply(),
            Ok(AdapterOutcome::Skipped { reason: ReasonCode::SkipReloadUnsupported })
        );
    }
}

#[test]
fn cli_adapter_defaults_to_sway() {
    let adapter = CliAdapter::from_compositor(None);
    assert!(adapter.capabilities().reload_supported);
    assert!(adapter.capabilities().can_rollback);
}

#[test]
fn error_display_text_joins_code_and_message() {
    let error = YaswitchError::new(ReasonCode::TransactionLockBusy, "lock held");
    assert_eq!(error.display_text(), "TRANSACTION_LOCK_BUSY: lock held");
}

#[test]
fn cycle_paths_sit_under_runtime_dirs() {
    let paths = RuntimePaths {
        config_dir: "/home/u/.config/yaswitch".to_string(),
        state_dir: "/home/u/.local/state/yaswitch".to_string(),
        cache_dir: "/home/u/.cache/yaswitch".to_string(),
        backup_dir: "/home/u/.local/state/yaswitch/backups".to_string(),
    };
    assert_eq!(themes_root_dir(&paths), "/home/u/.config/yaswitch/themes");
    assert_eq!(cycle_state_path(&paths), "/home/u/.local/state/yaswitch/cycle_state.json");
}
