//! The transaction journal: which files an apply wrote, where their backups are, and how
//! to undo it. The file operations themselves are the caller's; this module decides them.
use vstd::prelude::*;

use crate::engine::paths::{join_path, path_join, same_path, same_path_text};
use crate::text::{chars_of, decimal, decimal_chars, push_all, string_from_chars};

verus! {

/// One file written by a transaction, with the backup of its earlier content (none when
/// it did not exist before).
#[derive(Debug, Clone, PartialEq, Eq)]
pub struct JournalEntry {
    pub target_path: String,
    pub backup_path: Option<String>,
}

/// The persisted record of a transaction.
#[derive(Debug, Clone, PartialEq, Eq)]
pub struct TransactionJournal {
    pub id: String,
    pub backup_root: String,
    pub entries: Vec<JournalEntry>,
    pub committed: bool,
    pub lock_path: String,
}

/// A journal entry as text.
pub type EntryView = (Seq<char>, Option<Seq<char>>);

/// The text of an optional string.
pub open spec fn opt_str(o: Option<String>) -> Option<Seq<char>> {
    match o {
        Some(s) => Some(s@),
        None => None,
    }
}

/// The entries of a journal as text.
pub open spec fn entry_views(entries: Seq<JournalEntry>) -> Seq<EntryView> {
    entries.map_values(|e: JournalEntry| (e.target_path@, opt_str(e.backup_path)))
}

/// Where a transaction keeps its files under the state directory.
#[derive(Debug, Clone, PartialEq, Eq)]
pub struct TransactionLayout {
    pub tx_root: String,
    pub backup_root: String,
    pub lock_root: String,
    pub lock_path: String,
    pub journal_path: String,
}

/// The directories and files of transaction `id` under `state_root`.
pub fn transaction_layout(state_root: &str, id: &str) -> (l: TransactionLayout)
    ensures
        l.tx_root@ == path_join(path_join(state_root@, "transactions"@), id@),
        l.backup_root@ == path_join(l.tx_root@, "backups"@),
        l.lock_root@ == path_join(state_root@, "locks"@),
        l.lock_path@ == path_join(l.lock_root@, "apply.lock"@),
        l.journal_path@ == path_join(l.tx_root@, "journal.json"@),
{
    let transactions = join_path(state_root, "transactions");
    let tx_root = join_path(transactions.as_str(), id);
    let backup_root = join_path(tx_root.as_str(), "backups");
    let lock_root = join_path(state_root, "locks");
    let lock_path = join_path(lock_root.as_str(), "apply.lock");
    let journal_path = join_path(tx_root.as_str(), "journal.json");
    TransactionLayout { tx_root, backup_root, lock_root, lock_path, journal_path }
}

/// A path with each `/`, `\` and `:` replaced by `_`, fit to be a file name.
pub open spec fn sanitized(p: Seq<char>) -> Seq<char> {
    p.map_values(|c: char| if c == '/' || c == '\\' || c == ':' { '_' } else { c })
}

/// `path` with each `/`, `\` and `:` replaced by `_`.
pub fn sanitize_path(path: &str) -> (r: String)
    ensures
        r@ == sanitized(path@),
{
    let p = chars_of(path);
    let mut out: Vec<char> = Vec::new();
    let mut i: usize = 0;
    while i < p.len()
        invariant
            i <= p.len(),
            out@ =~= sanitized(p@.take(i as int)),
        decreases p.len() - i,
    {
        let c = p[i];
        out.push(if c == '/' || c == '\\' || c == ':' { '_' } else { c });
        i = i + 1;
        assert(out@ =~= sanitized(p@.take(i as int)));
    }
    assert(p@.take(i as int) =~= p@);
    string_from_chars(out.as_slice())
}

/// The backup file of the `index`-th entry, for `target`, under `backup_root`.
pub open spec fn backup_path_for(backup_root: Seq<char>, target: Seq<char>, index: nat) -> Seq<
    char,
> {
    path_join(backup_root, sanitized(target) + seq!['-'] + decimal(index) + ".bak"@)
}

/// The backup file of the `index`-th entry, for `target`, under `backup_root`.
pub fn backup_path(backup_root: &str, target: &str, index: usize) -> (r: String)
    ensures
        r@ == backup_path_for(backup_root@, target@, index as nat),
{
    let mut name = chars_of(sanitize_path(target).as_str());
    name.push('-');
    push_all(&mut name, &decimal_chars(index));
    push_all(&mut name, &chars_of(".bak"));
    let file = string_from_chars(name.as_slice());
    join_path(backup_root, file.as_str())
}

/// Whether a journal already holds an entry for the path `target`, however it is spelled.
pub open spec fn is_staged_path(entries: Seq<EntryView>, target: Seq<char>) -> bool {
    exists|i: int| 0 <= i < entries.len() && same_path((#[trigger] entries[i]).0, target)
}

/// What writing a file needs before the write.
#[derive(Debug, Clone, PartialEq, Eq)]
pub enum BackupDecision {
    /// The file was written before in this transaction: its backup is already taken.
    AlreadyStaged,
    /// Record a new journal entry, after copying the file to the backup path if given.
    NewEntry { backup_path: Option<String> },
}

/// An in-progress transaction: its journal and whether its lock has been released.
pub struct Transaction {
    journal_path: String,
    journal: TransactionJournal,
    lock_path: String,
    lock_released: bool,
}

/// What rolling back one journal entry does to the file system.
#[derive(Debug, Clone, PartialEq, Eq)]
pub enum RollbackStep {
    /// Copy the backup over the target, creating the target's directory first.
    Restore { backup: String, target: String },
    /// Remove the target, which did not exist before, if it exists.
    Remove { target: String },
}

/// A rollback step as text.
pub enum StepView {
    Restore { backup: Seq<char>, target: Seq<char> },
    Remove { target: Seq<char> },
}

impl View for RollbackStep {
    type V = StepView;

    open spec fn view(&self) -> StepView {
        match self {
            RollbackStep::Restore { backup, target } => StepView::Restore {
                backup: backup@,
                target: target@,
            },
            RollbackStep::Remove { target } => StepView::Remove { target: target@ },
        }
    }
}

/// The step that undoes one entry.
pub open spec fn undo_step(e: EntryView) -> StepView {
    match e.1 {
        Some(b) => StepView::Restore { backup: b, target: e.0 },
        None => StepView::Remove { target: e.0 },
    }
}

/// The steps that undo a journal's entries, the last entry first.
pub open spec fn undo_steps(entries: Seq<EntryView>) -> Seq<StepView> {
    entries.reverse().map_values(|e: EntryView| undo_step(e))
}

/// The steps that roll back every entry of a journal, the last entry first.
pub fn rollback_from_journal(journal: &TransactionJournal) -> (r: Vec<RollbackStep>)
    ensures
        r@.map_values(|s: RollbackStep| s@) == undo_steps(entry_views(journal.entries@)),
{
    let ghost ev = entry_views(journal.entries@);
    let mut steps: Vec<RollbackStep> = Vec::new();
    let mut i: usize = journal.entries.len();
    while i > 0
        invariant
            i <= journal.entries.len(),
            ev == entry_views(journal.entries@),
            steps@.map_values(|s: RollbackStep| s@) =~= ev.skip(i as int).reverse().map_values(
                |e: EntryView| undo_step(e),
            ),
        decreases i,
    {
        i = i - 1;
        let entry = &journal.entries[i];
        let step = match &entry.backup_path {
            Some(b) => RollbackStep::Restore { backup: b.clone(), target: entry.target_path.clone() },
            None => RollbackStep::Remove { target: entry.target_path.clone() },
        };
        let ghost before = steps@.map_values(|s: RollbackStep| s@);
        assert(step@ == undo_step(ev[i as int]));
        steps.push(step);
        assert(steps@.map_values(|s: RollbackStep| s@) =~= before.push(undo_step(ev[i as int])));
        assert(ev.skip(i as int).reverse() =~= ev.skip(i + 1).reverse().push(ev[i as int]));
    }
    assert(ev.skip(0) =~= ev);
    steps
}

/// The steps that recover a journal found after a crash: none when it was committed,
/// else its rollback.
pub fn recovery_steps(journal: &TransactionJournal) -> (r: Vec<RollbackStep>)
    ensures
        journal.committed ==> r@.len() == 0,
        !journal.committed ==> r@.map_values(|s: RollbackStep| s@) == undo_steps(
            entry_views(journal.entries@),
        ),
{
    if journal.committed {
        Vec::new()
    } else {
        rollback_from_journal(journal)
    }
}

/// A handle that recovers a transaction from its journal file.
#[derive(Debug, Clone)]
pub struct RollbackToken {
    journal_path: String,
}

impl RollbackToken {
    /// The journal file the token recovers from.
    pub closed spec fn path_of(&self) -> Seq<char> {
        self.journal_path@
    }

    /// The journal file the token recovers from.
    pub fn journal_path(&self) -> (r: &str)
        ensures
            r@ == self.path_of(),
    {
        self.journal_path.as_str()
    }
}

impl Transaction {
    /// The journal as it stands.
    pub closed spec fn journal_of(&self) -> TransactionJournal {
        self.journal
    }

    /// The journal file.
    pub closed spec fn journal_path_of(&self) -> Seq<char> {
        self.journal_path@
    }

    /// The lock file.
    pub closed spec fn lock_path_of(&self) -> Seq<char> {
        self.lock_path@
    }

    /// Whether the lock has been released.
    pub closed spec fn released(&self) -> bool {
        self.lock_released
    }

    /// The transaction `id`, once its backup directory, lock file and initial journal
    /// exist where `layout` places them.
    pub fn open(layout: &TransactionLayout, id: &str) -> (t: Self)
        ensures
            t.journal_of().id@ == id@,
            t.journal_of().backup_root@ == layout.backup_root@,
            t.journal_of().entries@.len() == 0,
            !t.journal_of().committed,
            t.journal_of().lock_path@ == layout.lock_path@,
            t.journal_path_of() == layout.journal_path@,
            t.lock_path_of() == layout.lock_path@,
            !t.released(),
    {
        Transaction {
            journal_path: layout.journal_path.clone(),
            journal: TransactionJournal {
                id: id.to_owned(),
                backup_root: layout.backup_root.clone(),
                entries: Vec::new(),
                committed: false,
                lock_path: layout.lock_path.clone(),
            },
            lock_path: layout.lock_path.clone(),
            lock_released: false,
        }
    }

    pub fn journal(&self) -> (j: &TransactionJournal)
        ensures
            *j == self.journal_of(),
    {
        &self.journal
    }

    /// The journal file.
    pub fn journal_path(&self) -> (p: &str)
        ensures
            p@ == self.journal_path_of(),
    {
        self.journal_path.as_str()
    }

    pub fn rollback_token(&self) -> (t: RollbackToken)
        ensures
            t.path_of() == self.journal_path_of(),
    {
        RollbackToken { journal_path: self.journal_path.clone() }
    }

    /// What must happen before `target` is written: nothing when it was written before in
    /// this transaction; else a new entry, with a backup when the file exists now.
    pub fn backup_for(&self, target: &str, target_exists: bool) -> (d: BackupDecision)
        ensures
            is_staged_path(entry_views(self.journal_of().entries@), target@) ==> d
                == BackupDecision::AlreadyStaged,
            !is_staged_path(entry_views(self.journal_of().entries@), target@) ==> (d matches BackupDecision::NewEntry { backup_path } && opt_str(backup_path) == if target_exists {
                Some(backup_path_for(
                    self.journal_of().backup_root@,
                    target@,
                    self.journal_of().entries@.len(),
                ))
            } else {
                None
            }),
    {
        let ghost ev = entry_views(self.journal.entries@);
        let mut i: usize = 0;
        while i < self.journal.entries.len()
            invariant
                i <= self.journal.entries.len(),
                ev == entry_views(self.journal.entries@),
                forall|k: int| 0 <= k < i ==> !same_path((#[trigger] ev[k]).0, target@),
            decreases self.journal.entries.len() - i,
        {
            if same_path_text(self.journal.entries[i].target_path.as_str(), target) {
                assert(same_path(ev[i as int].0, target@));
                return BackupDecision::AlreadyStaged;
            }
            i = i + 1;
        }
        if target_exists {
            BackupDecision::NewEntry {
                backup_path: Some(
                    backup_path(
                        self.journal.backup_root.as_str(),
                        target,
                        self.journal.entries.len(),
                    ),
                ),
            }
        } else {
            BackupDecision::NewEntry { backup_path: None }
        }
    }

    /// Records that `target` is written in this transaction, with its backup.
    pub fn record_entry(&mut self, target: &str, backup_path: Option<String>)
        ensures
            entry_views(final(self).journal_of().entries@) == entry_views(
                old(self).journal_of().entries@,
            ).push((target@, opt_str(backup_path))),
            final(self).journal_of().id == old(self).journal_of().id,
            final(self).journal_of().backup_root == old(self).journal_of().backup_root,
            final(self).journal_of().committed == old(self).journal_of().committed,
            final(self).journal_of().lock_path == old(self).journal_of().lock_path,
            final(self).journal_path_of() == old(self).journal_path_of(),
            final(self).lock_path_of() == old(self).lock_path_of(),
            final(self).released() == old(self).released(),
    {
        let ghost before = entry_views(self.journal.entries@);
        let ghost bv = opt_str(backup_path);
        self.journal.entries.push(JournalEntry { target_path: target.to_owned(), backup_path });
        assert(entry_views(self.journal.entries@) =~= before.push((target@, bv)));
    }

    /// Marks the journal committed.
    pub fn commit(&mut self)
        ensures
            final(self).journal_of().committed,
            final(self).journal_of().entries == old(self).journal_of().entries,
            final(self).journal_of().id == old(self).journal_of().id,
            final(self).journal_of().backup_root == old(self).journal_of().backup_root,
            final(self).journal_of().lock_path == old(self).journal_of().lock_path,
            final(self).journal_path_of() == old(self).journal_path_of(),
            final(self).lock_path_of() == old(self).lock_path_of(),
            final(self).released() == old(self).released(),
    {
        self.journal.committed = true;
    }

    /// The lock file to remove, the first time only; the lock counts as released after.
    pub fn release_lock(&mut self) -> (r: Option<String>)
        ensures
            old(self).released() ==> r is None,
            !old(self).released() ==> (r matches Some(p) && p@ == old(self).lock_path_of()),
            final(self).released(),
            final(self).journal_of() == old(self).journal_of(),
            final(self).journal_path_of() == old(self).journal_path_of(),
            final(self).lock_path_of() == old(self).lock_path_of(),
    {
        if self.lock_released {
            return None;
        }
        self.lock_released = true;
        Some(self.lock_path.clone())
    }

    /// The steps that roll back what this transaction wrote, the last write first.
    pub fn rollback(&self) -> (r: Vec<RollbackStep>)
        ensures
            r@.map_values(|s: RollbackStep| s@) == undo_steps(
                entry_views(self.journal_of().entries@),
            ),
    {
        rollback_from_journal(&self.journal)
    }
}

} // verus!
