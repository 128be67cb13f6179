//! What a transaction's writes and its rollback do to the files they touch, and the proof
//! that rolling back gives every written file its content from before the transaction.
use vstd::prelude::*;

use crate::engine::paths::{path_join, path_key, path_parts, same_path, scan_path};
use crate::engine::transaction::{
    backup_path_for, is_staged_path, sanitized, undo_step, undo_steps, EntryView, StepView,
};
use crate::text::{decimal, digit_char};

verus! {

/// Files by the key of their path (paths that compare equal name one file), with their
/// content; a key that is not in the map has no file.
pub type FileSystem = Map<(bool, bool, Seq<Seq<char>>), Seq<u8>>;

/// Whether two file systems agree on the file at `p`: both lack it, or both hold it with
/// one content.
pub open spec fn agree_at(a: FileSystem, b: FileSystem, p: Seq<char>) -> bool {
    &&& a.dom().contains(path_key(p)) == b.dom().contains(path_key(p))
    &&& a.dom().contains(path_key(p)) ==> a[path_key(p)] == b[path_key(p)]
}

/// Writing `content` to `target` inside a transaction: the first write of a path (however
/// it is spelled) takes a backup of an existing file and records a journal entry; every
/// write then replaces the target's content.
pub open spec fn write_effect(
    fs: FileSystem,
    entries: Seq<EntryView>,
    backup_root: Seq<char>,
    target: Seq<char>,
    content: Seq<u8>,
) -> (FileSystem, Seq<EntryView>) {
    let k = path_key(target);
    if is_staged_path(entries, target) {
        (fs.insert(k, content), entries)
    } else if fs.dom().contains(k) {
        let b = backup_path_for(backup_root, target, entries.len());
        (fs.insert(path_key(b), fs[k]).insert(k, content), entries.push((target, Some(b))))
    } else {
        (fs.insert(k, content), entries.push((target, None)))
    }
}

/// A sequence of writes inside one transaction, from an empty journal.
pub open spec fn run_writes(fs: FileSystem, backup_root: Seq<char>, writes: Seq<(Seq<char>, Seq<u8>)>) -> (
    FileSystem,
    Seq<EntryView>,
)
    decreases writes.len(),
{
    if writes.len() == 0 {
        (fs, Seq::empty())
    } else {
        let (f, e) = run_writes(fs, backup_root, writes.drop_last());
        write_effect(f, e, backup_root, writes.last().0, writes.last().1)
    }
}

/// One rollback step: copy the backup over the target, or remove the target.
pub open spec fn step_effect(fs: FileSystem, s: StepView) -> FileSystem {
    match s {
        StepView::Restore { backup, target } => if fs.dom().contains(path_key(backup)) {
            fs.insert(path_key(target), fs[path_key(backup)])
        } else {
            fs
        },
        StepView::Remove { target } => fs.remove(path_key(target)),
    }
}

/// Rollback steps applied in order.
pub open spec fn run_steps(fs: FileSystem, steps: Seq<StepView>) -> FileSystem
    decreases steps.len(),
{
    if steps.len() == 0 {
        fs
    } else {
        run_steps(step_effect(fs, steps[0]), steps.drop_first())
    }
}

/// Whether `p` names a transaction backup under `backup_root`.
pub open spec fn is_backup_name(backup_root: Seq<char>, p: Seq<char>) -> bool {
    exists|t: Seq<char>, n: nat| same_path(p, #[trigger] backup_path_for(backup_root, t, n))
}

proof fn lemma_digit(d: nat)
    requires
        d < 10,
    ensures
        digit_char(d) != '-',
        digit_char(d) != '/',
        forall|e: nat| e < 10 && #[trigger] digit_char(e) == digit_char(d) ==> e == d,
{
    assert forall|e: nat| e < 10 && #[trigger] digit_char(e) == digit_char(d) implies e == d by {
        assert(d == 0 || d == 1 || d == 2 || d == 3 || d == 4 || d == 5 || d == 6 || d == 7 || d
            == 8 || d == 9);
        assert(e == 0 || e == 1 || e == 2 || e == 3 || e == 4 || e == 5 || e == 6 || e == 7 || e
            == 8 || e == 9);
    }
    assert(d == 0 || d == 1 || d == 2 || d == 3 || d == 4 || d == 5 || d == 6 || d == 7 || d == 8
        || d == 9);
}

proof fn lemma_decimal_shape(n: nat)
    ensures
        decimal(n).len() >= 1,
        n >= 10 ==> decimal(n).len() >= 2,
        forall|i: int| 0 <= i < decimal(n).len() ==> #[trigger] decimal(n)[i] != '-' && decimal(n)[i] != '/',
    decreases n,
{
    if n < 10 {
        lemma_digit(n);
    } else {
        lemma_decimal_shape(n / 10);
        lemma_digit(n % 10);
        assert forall|i: int| 0 <= i < decimal(n).len() implies #[trigger] decimal(n)[i] != '-' && decimal(n)[i] != '/' by {
            if i < decimal(n / 10).len() {
                assert(decimal(n)[i] == decimal(n / 10)[i]);
            }
        }
    }
}

proof fn lemma_decimal_injective(a: nat, b: nat)
    requires
        decimal(a) == decimal(b),
    ensures
        a == b,
    decreases a,
{
    lemma_decimal_shape(a);
    lemma_decimal_shape(b);
    if a < 10 && b < 10 {
        lemma_digit(a);
        assert(decimal(a)[0] == digit_char(a));
        assert(decimal(b)[0] == digit_char(b));
    } else if a >= 10 && b >= 10 {
        lemma_decimal_shape(a / 10);
        lemma_decimal_shape(b / 10);
        assert(decimal(a).last() == digit_char(a % 10));
        assert(decimal(b).last() == digit_char(b % 10));
        lemma_digit(a % 10);
        assert(decimal(a).drop_last() =~= decimal(a / 10));
        assert(decimal(b).drop_last() =~= decimal(b / 10));
        lemma_decimal_injective(a / 10, b / 10);
    } else {
        if a < 10 {
            assert(decimal(a).len() == 1);
        } else {
            assert(decimal(b).len() == 1);
        }
    }
}

/// Two names `x + "-" + d1 + s` and `y + "-" + d2 + s` with no `-` in `d1` and `d2` have
/// `d1 == d2`.
proof fn lemma_split_at_last_dash(
    x: Seq<char>,
    d1: Seq<char>,
    y: Seq<char>,
    d2: Seq<char>,
    s: Seq<char>,
)
    requires
        x + seq!['-'] + d1 + s == y + seq!['-'] + d2 + s,
        forall|i: int| 0 <= i < d1.len() ==> d1[i] != '-',
        forall|i: int| 0 <= i < d2.len() ==> d2[i] != '-',
    ensures
        d1 == d2,
{
    let l = x + seq!['-'] + d1;
    let r = y + seq!['-'] + d2;
    let whole = l + s;
    assert(whole =~= r + s);
    assert(l =~= whole.take(l.len() as int));
    assert(l.len() == r.len());
    assert(r =~= (r + s).take(r.len() as int));
    assert(l == r);
    let n = l.len();
    if d1.len() < d2.len() {
        let i = n - d1.len() - 1;
        assert(l[i] == '-');
        assert(r[i] == d2[i - (n - d2.len())]);
    } else if d2.len() < d1.len() {
        let i = n - d2.len() - 1;
        assert(r[i] == '-');
        assert(l[i] == d1[i - (n - d1.len())]);
    } else {
        assert(d1 =~= l.skip(n - d1.len()));
        assert(d2 =~= r.skip(n - d2.len()));
    }
}

/// Reading characters without `/` after a path that ends a component extends the
/// component being read and leaves the finished ones alone.
pub proof fn lemma_scan_append(pre: Seq<char>, name: Seq<char>, i: int)
    requires
        scan_path(pre, false).1.len() == 0,
        forall|j: int| 0 <= j < name.len() ==> name[j] != '/',
        0 <= i <= name.len(),
    ensures
        scan_path(pre + name.take(i), false) == (scan_path(pre, false).0, name.take(i)),
    decreases i,
{
    if i == 0 {
        assert(pre + name.take(0) =~= pre);
        assert(name.take(0) =~= scan_path(pre, false).1);
    } else {
        lemma_scan_append(pre, name, i - 1);
        let p = pre + name.take(i);
        assert(p.drop_last() =~= pre + name.take(i - 1));
        assert(p.last() == name[i - 1]);
        assert(name.take(i - 1).push(name[i - 1]) =~= name.take(i));
    }
}

/// The last component of a backup path is its file name.
proof fn lemma_backup_parts(root: Seq<char>, t: Seq<char>, n: nat)
    ensures
        ({
            let name = sanitized(t) + seq!['-'] + decimal(n) + ".bak"@;
            let pre = if root.len() == 0 || root.last() == '/' {
                root
            } else {
                root + seq!['/']
            };
            &&& backup_path_for(root, t, n) == pre + name
            &&& path_parts(backup_path_for(root, t, n), false) == scan_path(pre, false).0.push(name)
        }),
{
    reveal_strlit(".bak");
    let name = sanitized(t) + seq!['-'] + decimal(n) + ".bak"@;
    let pre = if root.len() == 0 || root.last() == '/' {
        root
    } else {
        root + seq!['/']
    };
    lemma_decimal_shape(n);
    let st = sanitized(t);
    assert forall|j: int| 0 <= j < name.len() implies name[j] != '/' by {
        if j < st.len() {
            assert(name[j] == st[j]);
        } else if j == st.len() {
        } else if j < st.len() + 1 + decimal(n).len() {
            assert(name[j] == decimal(n)[j - st.len() - 1]);
        } else {
            assert(".bak"@ =~= seq!['.', 'b', 'a', 'k']);
        }
    }
    assert(name.len() > 0 && name[0] != '/');
    assert(path_join(root, name) =~= pre + name);
    if root.len() == 0 {
        assert(pre =~= Seq::<char>::empty());
    } else if root.last() == '/' {
    } else {
        assert(pre.last() == '/');
        assert(pre.drop_last() =~= root);
    }
    assert(scan_path(pre, false).1.len() == 0);
    lemma_scan_append(pre, name, name.len() as int);
    assert(name.take(name.len() as int) =~= name);
    assert(name.len() >= 6);
    assert(name != seq!['.']) by {
        assert(name.len() != seq!['.'].len());
    }
}

/// Backup paths of different journal indices are different paths.
pub proof fn lemma_backup_names_distinct(root: Seq<char>, t1: Seq<char>, n1: nat, t2: Seq<char>, n2: nat)
    requires
        same_path(backup_path_for(root, t1, n1), backup_path_for(root, t2, n2)),
    ensures
        n1 == n2,
{
    lemma_backup_parts(root, t1, n1);
    lemma_backup_parts(root, t2, n2);
    lemma_decimal_shape(n1);
    lemma_decimal_shape(n2);
    let s1 = sanitized(t1) + seq!['-'] + decimal(n1) + ".bak"@;
    let s2 = sanitized(t2) + seq!['-'] + decimal(n2) + ".bak"@;
    let pre = if root.len() == 0 || root.last() == '/' {
        root
    } else {
        root + seq!['/']
    };
    let stack = scan_path(pre, false).0;
    assert(stack.push(s1).last() == s1);
    assert(stack.push(s2).last() == s2);
    assert(s1 == s2);
    lemma_split_at_last_dash(sanitized(t1), decimal(n1), sanitized(t2), decimal(n2), ".bak"@);
    lemma_decimal_injective(n1, n2);
}

/// What the write phase keeps true of the journal `e` and the files `fs`, relative to the
/// files `fs0` from before the transaction: one entry per path, no target is a backup
/// name, an entry has a backup exactly when its file existed before, and that backup
/// still holds the earlier content.
pub open spec fn journal_consistent(
    fs0: FileSystem,
    root: Seq<char>,
    fs: FileSystem,
    e: Seq<EntryView>,
) -> bool {
    &&& forall|j: int, k: int| 0 <= j < k < e.len() ==> !same_path((#[trigger] e[j]).0, (#[trigger] e[k]).0)
    &&& forall|k: int| 0 <= k < e.len() ==> !is_backup_name(root, (#[trigger] e[k]).0)
    &&& forall|k: int|
        0 <= k < e.len() ==> (#[trigger] e[k]).1 == if fs0.dom().contains(path_key(e[k].0)) {
            Some(backup_path_for(root, e[k].0, k as nat))
        } else {
            None
        }
    &&& forall|k: int|
        0 <= k < e.len() && (#[trigger] e[k]).1 is Some ==> fs.dom().contains(path_key(e[k].1->0))
            && fs[path_key(e[k].1->0)] == fs0[path_key(e[k].0)]
}

/// Every path that is neither journaled nor a backup name still agrees with `fs0`.
pub open spec fn untouched_agree(fs0: FileSystem, root: Seq<char>, fs: FileSystem, e: Seq<EntryView>) -> bool {
    forall|p: Seq<char>|
        !is_staged_path(e, p) && !is_backup_name(root, p) ==> #[trigger] agree_at(fs, fs0, p)
}

proof fn lemma_write_keeps_journal(
    fs0: FileSystem,
    root: Seq<char>,
    fs: FileSystem,
    e: Seq<EntryView>,
    t: Seq<char>,
    c: Seq<u8>,
)
    requires
        journal_consistent(fs0, root, fs, e),
        untouched_agree(fs0, root, fs, e),
        !is_backup_name(root, t),
    ensures
        ({
            let (fs2, e2) = write_effect(fs, e, root, t, c);
            &&& journal_consistent(fs0, root, fs2, e2)
            &&& untouched_agree(fs0, root, fs2, e2)
            &&& is_staged_path(e2, t)
            &&& e.len() <= e2.len()
            &&& forall|k: int| 0 <= k < e.len() ==> e2[k] == e[k]
            &&& forall|k: int| e.len() <= k < e2.len() ==> e2[k].0 == t
        }),
{
    let (fs2, e2) = write_effect(fs, e, root, t, c);
    let kt = path_key(t);
    let n = e.len();
    // a journaled backup is never the target
    assert forall|k: int| 0 <= k < e.len() && (#[trigger] e[k]).1 is Some implies path_key(e[k].1->0) != kt by {
        let bk = e[k].1->0;
        assert(bk == backup_path_for(root, e[k].0, k as nat));
        if path_key(bk) == kt {
            assert(same_path(t, backup_path_for(root, e[k].0, k as nat)));
        }
    }
    if is_staged_path(e, t) {
        let k0 = choose|k: int| 0 <= k < e.len() && same_path((#[trigger] e[k]).0, t);
        assert forall|p: Seq<char>| !is_staged_path(e2, p) && !is_backup_name(root, p) implies #[trigger] agree_at(
            fs2,
            fs0,
            p,
        ) by {
            if path_key(p) == kt {
                assert(same_path(e[k0].0, p));
            }
            assert(agree_at(fs, fs0, p));
        }
    } else {
        assert(agree_at(fs, fs0, t));
        assert(same_path(e2[n as int].0, t));
        assert forall|j: int, k: int| 0 <= j < k < e2.len() implies !same_path((#[trigger] e2[j]).0, (
        #[trigger] e2[k]).0) by {
            if k == n {
                assert(e2[j] == e[j]);
                if same_path(e[j].0, t) {
                    assert(is_staged_path(e, t));
                }
            } else {
                assert(e2[j] == e[j] && e2[k] == e[k]);
            }
        }
        assert forall|k: int| 0 <= k < e2.len() implies !is_backup_name(root, (#[trigger] e2[k]).0) by {
            if k < n {
                assert(e2[k] == e[k]);
            }
        }
        assert forall|k: int| 0 <= k < e2.len() implies (#[trigger] e2[k]).1 == if fs0.dom().contains(
            path_key(e2[k].0),
        ) {
            Some(backup_path_for(root, e2[k].0, k as nat))
        } else {
            None
        } by {
            if k < n {
                assert(e2[k] == e[k]);
            }
        }
        if fs.dom().contains(kt) {
            let b = backup_path_for(root, t, n);
            let kb = path_key(b);
            assert(kb != kt) by {
                if kb == kt {
                    assert(same_path(t, backup_path_for(root, t, n)));
                }
            }
            assert forall|k: int| 0 <= k < e2.len() && (#[trigger] e2[k]).1 is Some implies fs2.dom().contains(
                path_key(e2[k].1->0),
            ) && fs2[path_key(e2[k].1->0)] == fs0[path_key(e2[k].0)] by {
                if k < n {
                    assert(e2[k] == e[k]);
                    let bk = e[k].1->0;
                    assert(bk == backup_path_for(root, e[k].0, k as nat));
                    if path_key(bk) == kb {
                        lemma_backup_names_distinct(root, e[k].0, k as nat, t, n);
                    }
                } else {
                    assert(k == n);
                }
            }
            assert forall|p: Seq<char>| !is_staged_path(e2, p) && !is_backup_name(root, p) implies #[trigger] agree_at(
                fs2,
                fs0,
                p,
            ) by {
                if path_key(p) == kt {
                    assert(same_path(e2[n as int].0, p));
                }
                if path_key(p) == kb {
                    assert(same_path(p, backup_path_for(root, t, n)));
                }
                if is_staged_path(e, p) {
                    let k = choose|k: int| 0 <= k < e.len() && same_path((#[trigger] e[k]).0, p);
                    assert(e2[k] == e[k]);
                }
                assert(agree_at(fs, fs0, p));
            }
        } else {
            assert forall|k: int| 0 <= k < e2.len() && (#[trigger] e2[k]).1 is Some implies fs2.dom().contains(
                path_key(e2[k].1->0),
            ) && fs2[path_key(e2[k].1->0)] == fs0[path_key(e2[k].0)] by {
                if k < n {
                    assert(e2[k] == e[k]);
                }
            }
            assert forall|p: Seq<char>| !is_staged_path(e2, p) && !is_backup_name(root, p) implies #[trigger] agree_at(
                fs2,
                fs0,
                p,
            ) by {
                if path_key(p) == kt {
                    assert(same_path(e2[n as int].0, p));
                }
                if is_staged_path(e, p) {
                    let k = choose|k: int| 0 <= k < e.len() && same_path((#[trigger] e[k]).0, p);
                    assert(e2[k] == e[k]);
                }
                assert(agree_at(fs, fs0, p));
            }
        }
    }
}

/// Whether some write of the sequence targets the path `p`, however it is spelled.
pub open spec fn is_written(writes: Seq<(Seq<char>, Seq<u8>)>, p: Seq<char>) -> bool {
    exists|i: int| 0 <= i < writes.len() && same_path((#[trigger] writes[i]).0, p)
}

proof fn lemma_run_writes(fs0: FileSystem, root: Seq<char>, writes: Seq<(Seq<char>, Seq<u8>)>)
    requires
        forall|i: int| 0 <= i < writes.len() ==> !is_backup_name(root, (#[trigger] writes[i]).0),
    ensures
        ({
            let (fs, e) = run_writes(fs0, root, writes);
            &&& journal_consistent(fs0, root, fs, e)
            &&& untouched_agree(fs0, root, fs, e)
            &&& forall|i: int| 0 <= i < writes.len() ==> is_staged_path(e, (#[trigger] writes[i]).0)
            &&& forall|k: int| 0 <= k < e.len() ==> is_written(writes, (#[trigger] e[k]).0)
        }),
    decreases writes.len(),
{
    if writes.len() == 0 {
        assert(untouched_agree(fs0, root, fs0, Seq::empty())) by {
            assert forall|p: Seq<char>| !is_staged_path(Seq::<EntryView>::empty(), p) && !is_backup_name(root, p)
                implies #[trigger] agree_at(fs0, fs0, p) by {}
        }
    } else {
        let prefix = writes.drop_last();
        assert forall|i: int| 0 <= i < prefix.len() implies !is_backup_name(root, (#[trigger] prefix[i]).0) by {
            assert(prefix[i] == writes[i]);
        }
        lemma_run_writes(fs0, root, prefix);
        let (f, e) = run_writes(fs0, root, prefix);
        let (t, c) = writes.last();
        assert(writes.last() == writes[writes.len() - 1]);
        lemma_write_keeps_journal(fs0, root, f, e, t, c);
        let (fs2, e2) = write_effect(f, e, root, t, c);
        assert forall|i: int| 0 <= i < writes.len() implies is_staged_path(e2, (#[trigger] writes[i]).0) by {
            if i < prefix.len() {
                assert(prefix[i] == writes[i]);
                assert(is_staged_path(e, prefix[i].0));
                let k = choose|k: int| 0 <= k < e.len() && same_path((#[trigger] e[k]).0, prefix[i].0);
                assert(e2[k] == e[k]);
            }
        }
        assert forall|k: int| 0 <= k < e2.len() implies is_written(writes, (#[trigger] e2[k]).0) by {
            if k < e.len() {
                assert(e2[k] == e[k]);
                assert(is_written(prefix, e[k].0));
                let i = choose|i: int| 0 <= i < prefix.len() && same_path((#[trigger] prefix[i]).0, e[k].0);
                assert(writes[i] == prefix[i]);
            } else {
                assert(writes[writes.len() - 1].0 == t);
                assert(same_path(writes[writes.len() - 1].0, e2[k].0));
            }
        }
    }
}

proof fn lemma_undo_steps_last(e: Seq<EntryView>)
    requires
        e.len() > 0,
    ensures
        undo_steps(e) =~= seq![undo_step(e.last())] + undo_steps(e.drop_last()),
{
    assert(e.reverse() =~= seq![e.last()] + e.drop_last().reverse());
}

proof fn lemma_undo(fs0: FileSystem, root: Seq<char>, fs: FileSystem, e: Seq<EntryView>)
    requires
        journal_consistent(fs0, root, fs, e),
    ensures
        forall|k: int|
            0 <= k < e.len() ==> agree_at(run_steps(fs, undo_steps(e)), fs0, (#[trigger] e[k]).0),
        forall|p: Seq<char>|
            !is_staged_path(e, p) && !is_backup_name(root, p) ==> #[trigger] agree_at(
                run_steps(fs, undo_steps(e)),
                fs,
                p,
            ),
    decreases e.len(),
{
    if e.len() == 0 {
        assert(undo_steps(e) =~= Seq::<StepView>::empty());
        assert forall|p: Seq<char>| !is_staged_path(e, p) && !is_backup_name(root, p) implies #[trigger] agree_at(
            run_steps(fs, undo_steps(e)),
            fs,
            p,
        ) by {}
    } else {
        let n = e.len() - 1;
        let last = e[n];
        let kl = path_key(last.0);
        let rest = e.drop_last();
        lemma_undo_steps_last(e);
        let steps = undo_steps(e);
        assert(steps[0] == undo_step(last));
        assert(steps.drop_first() =~= undo_steps(rest));
        let fs1 = step_effect(fs, undo_step(last));
        assert(run_steps(fs, steps) == run_steps(fs1, undo_steps(rest)));
        assert(agree_at(fs1, fs0, last.0)) by {
            if last.1 is Some {
                assert(fs.dom().contains(path_key(last.1->0)));
            }
        }
        assert forall|q: (bool, bool, Seq<Seq<char>>)| q != kl implies fs1.dom().contains(q)
            == fs.dom().contains(q) && (fs1.dom().contains(q) ==> fs1[q] == fs[q]) by {}
        assert(journal_consistent(fs0, root, fs1, rest)) by {
            assert forall|k: int| 0 <= k < rest.len() && (#[trigger] rest[k]).1 is Some implies fs1.dom().contains(
                path_key(rest[k].1->0),
            ) && fs1[path_key(rest[k].1->0)] == fs0[path_key(rest[k].0)] by {
                assert(rest[k] == e[k]);
                let bk = rest[k].1->0;
                assert(bk == backup_path_for(root, e[k].0, k as nat));
                if path_key(bk) == kl {
                    assert(same_path(last.0, backup_path_for(root, e[k].0, k as nat)));
                }
            }
            assert forall|j: int, k: int| 0 <= j < k < rest.len() implies !same_path((#[trigger] rest[j]).0, (
            #[trigger] rest[k]).0) by {
                assert(rest[j] == e[j] && rest[k] == e[k]);
            }
            assert forall|k: int| 0 <= k < rest.len() implies !is_backup_name(root, (#[trigger] rest[k]).0) by {
                assert(rest[k] == e[k]);
            }
            assert forall|k: int| 0 <= k < rest.len() implies (#[trigger] rest[k]).1 == if fs0.dom().contains(
                path_key(rest[k].0),
            ) {
                Some(backup_path_for(root, rest[k].0, k as nat))
            } else {
                None
            } by {
                assert(rest[k] == e[k]);
            }
        }
        lemma_undo(fs0, root, fs1, rest);
        let r = run_steps(fs1, undo_steps(rest));
        assert(!is_staged_path(rest, last.0)) by {
            if is_staged_path(rest, last.0) {
                let k = choose|k: int| 0 <= k < rest.len() && same_path((#[trigger] rest[k]).0, last.0);
                assert(rest[k] == e[k]);
            }
        }
        assert(agree_at(r, fs1, last.0));
        assert forall|k: int| 0 <= k < e.len() implies agree_at(r, fs0, (#[trigger] e[k]).0) by {
            if k < n {
                assert(rest[k] == e[k]);
            }
        }
        assert forall|p: Seq<char>| !is_staged_path(e, p) && !is_backup_name(root, p) implies #[trigger] agree_at(
            r,
            fs,
            p,
        ) by {
            if path_key(p) == kl {
                assert(same_path(e[n].0, p));
            }
            assert(!is_staged_path(rest, p)) by {
                if is_staged_path(rest, p) {
                    let k = choose|k: int| 0 <= k < rest.len() && same_path((#[trigger] rest[k]).0, p);
                    assert(e[k] == rest[k]);
                }
            }
            assert(agree_at(r, fs1, p));
        }
    }
}

/// One write inside a transaction: the target then holds exactly the written content; the
/// first write of a path journals it, with a backup exactly when the file existed, and
/// the backup holds the file's earlier content; a later write of the same path (however
/// spelled) leaves the journal as it was. This holds when the target is not itself a
/// backup name under the backup root.
pub proof fn law_write_backs_up_first(
    fs: FileSystem,
    entries: Seq<EntryView>,
    backup_root: Seq<char>,
    target: Seq<char>,
    content: Seq<u8>,
)
    requires
        !is_backup_name(backup_root, target),
    ensures
        ({
            let (fs2, e2) = write_effect(fs, entries, backup_root, target, content);
            let k = path_key(target);
            let b = backup_path_for(backup_root, target, entries.len());
            &&& fs2.dom().contains(k) && fs2[k] == content
            &&& is_staged_path(entries, target) ==> e2 == entries
            &&& !is_staged_path(entries, target) ==> e2 == entries.push(
                (target, if fs.dom().contains(k) { Some(b) } else { None }),
            )
            &&& !is_staged_path(entries, target) && fs.dom().contains(k) ==> fs2.dom().contains(
                path_key(b),
            ) && fs2[path_key(b)] == fs[k]
        }),
{
    let k = path_key(target);
    let b = backup_path_for(backup_root, target, entries.len());
    if path_key(b) == k {
        assert(same_path(target, backup_path_for(backup_root, target, entries.len())));
    }
}

/// Rolling a transaction back restores its files: after any sequence of writes and then
/// the rollback steps of the journal they produced, every written file is back to what
/// it was before the transaction (present with its old content, or absent again), and
/// every other file that is not a backup is as it was. Files are named by their paths as
/// paths compare, so spellings of one path name one file. This holds when no written path
/// is itself a backup file name under the backup root.
pub proof fn law_rollback_restores_written_files(
    fs0: FileSystem,
    backup_root: Seq<char>,
    writes: Seq<(Seq<char>, Seq<u8>)>,
)
    requires
        forall|i: int|
            0 <= i < writes.len() ==> !is_backup_name(backup_root, (#[trigger] writes[i]).0),
    ensures
        ({
            let (fs, e) = run_writes(fs0, backup_root, writes);
            let restored = run_steps(fs, undo_steps(e));
            &&& forall|i: int|
                0 <= i < writes.len() ==> agree_at(restored, fs0, (#[trigger] writes[i]).0)
            &&& forall|p: Seq<char>|
                !is_written(writes, p) && !is_backup_name(backup_root, p) ==> #[trigger] agree_at(
                    restored,
                    fs0,
                    p,
                )
        }),
{
    lemma_run_writes(fs0, backup_root, writes);
    let (fs, e) = run_writes(fs0, backup_root, writes);
    lemma_undo(fs0, backup_root, fs, e);
    let restored = run_steps(fs, undo_steps(e));
    assert forall|i: int| 0 <= i < writes.len() implies agree_at(restored, fs0, (#[trigger] writes[i]).0) by {
        assert(is_staged_path(e, writes[i].0));
        let k = choose|k: int| 0 <= k < e.len() && same_path((#[trigger] e[k]).0, writes[i].0);
        assert(agree_at(restored, fs0, e[k].0));
    }
    assert forall|p: Seq<char>| !is_written(writes, p) && !is_backup_name(backup_root, p) implies #[trigger] agree_at(
        restored,
        fs0,
        p,
    ) by {
        assert(!is_staged_path(e, p)) by {
            if is_staged_path(e, p) {
                let k = choose|k: int| 0 <= k < e.len() && same_path((#[trigger] e[k]).0, p);
                assert(is_written(writes, e[k].0));
                let i = choose|i: int| 0 <= i < writes.len() && same_path((#[trigger] writes[i]).0, e[k].0);
                assert(same_path(writes[i].0, p));
            }
        }
        assert(agree_at(restored, fs, p));
        assert(agree_at(fs, fs0, p));
    }
}

} // verus!
