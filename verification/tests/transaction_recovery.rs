use yaswitch::engine::transaction::{
    backup_path, recovery_steps, rollback_from_journal, sanitize_path, transaction_layout,
    BackupDecision, RollbackStep, Transaction,
};

#[test]
fn layout_places_files_under_state_root() {
    let layout = transaction_layout("/state", "tx-1");
    assert_eq!(layout.tx_root, "/state/transactions/tx-1");
    assert_eq!(layout.backup_root, "/state/transactions/tx-1/backups");
    assert_eq!(layout.lock_path, "/state/locks/apply.lock");
    assert_eq!(layout.journal_path, "/state/transactions/tx-1/journal.json");
}

#[test]
fn backups_are_named_after_target_and_index() {
    assert_eq!(sanitize_path("/home/u/a:b\\c"), "_home_u_a_b_c");
    assert_eq!(
        backup_path("/b", "/cfg/kitty.conf", 12),
        "/b/_cfg_kitty.conf-12.bak"
    );
}

#[test]
fn transaction_stages_each_target_once_and_rolls_back_in_reverse() {
    let layout = transaction_layout("/state", "tx-1");
    let mut tx = Transaction::open(&layout, "tx-1");
    let first = tx.backup_for("/cfg/a.conf", true);
    assert_eq!(
        first,
        BackupDecision::NewEntry {
            backup_path: Some("/state/transactions/tx-1/backups/_cfg_a.conf-0.bak".to_string())
        }
    );
    tx.record_entry("/cfg/a.conf", Some("/state/transactions/tx-1/backups/_cfg_a.conf-0.bak".to_string()));
    assert_eq!(tx.backup_for("/cfg/a.conf", true), BackupDecision::AlreadyStaged);
    assert_eq!(
        tx.backup_for("/cfg/new.conf", false),
        BackupDecision::NewEntry { backup_path: None }
    );
    tx.record_entry("/cfg/new.conf", None);
    assert_eq!(tx.journal().entries.len(), 2);

    let steps = tx.rollback();
    assert_eq!(
        steps,
        vec![
            RollbackStep::Remove { target: "/cfg/new.conf".to_string() },
            RollbackStep::Restore {
                backup: "/state/transactions/tx-1/backups/_cfg_a.conf-0.bak".to_string(),
                target: "/cfg/a.conf".to_string(),
            },
        ]
    );
    assert_eq!(rollback_from_journal(tx.journal()), steps);
    assert_eq!(recovery_steps(tx.journal()), steps);
}

#[test]
fn committed_journal_recovers_to_nothing_and_lock_releases_once() {
    let layout = transaction_layout("/state", "tx-2");
    let mut tx = Transaction::open(&layout, "tx-2");
    tx.record_entry("/cfg/a.conf", None);
    assert_eq!(tx.rollback_token().journal_path(), "/state/transactions/tx-2/journal.json");
    tx.commit();
    assert!(tx.journal().committed);
    assert!(recovery_steps(tx.journal()).is_empty());
    assert_eq!(tx.release_lock(), Some("/state/locks/apply.lock".to_string()));
    assert_eq!(tx.release_lock(), None);
}

#[test]
fn staging_compares_paths_not_spellings() {
    let layout = transaction_layout("/state", "tx-1");
    let mut tx = Transaction::open(&layout, "tx-1");
    tx.record_entry("/cfg/a/b.conf", None);
    assert_eq!(tx.backup_for("/cfg//a/b.conf", true), BackupDecision::AlreadyStaged);
    assert_eq!(tx.backup_for("/cfg/./a/b.conf", true), BackupDecision::AlreadyStaged);
    assert_eq!(
        tx.backup_for("/cfg/x/../a/b.conf", false),
        BackupDecision::NewEntry { backup_path: None }
    );
    tx.record_entry("rel/c.conf", None);
    assert_eq!(tx.backup_for("rel/c.conf/", true), BackupDecision::AlreadyStaged);
    assert_eq!(
        tx.backup_for("./rel/c.conf", false),
        BackupDecision::NewEntry { backup_path: None }
    );
}
