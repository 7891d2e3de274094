//! Laws of features: which files count as touched, which paths a run
//! reads and writes, and that a run is all or nothing.

use vstd::prelude::*;
use crate::components::{
    apply_from, apply_outcome, operation_stakes, rollback_from, rollback_outcome, stakes_of,
    touched_of, touched_stakes, watched, well_formed, CharismView, PithoView,
};
use crate::laws::files::{same_at, same_on};
use crate::error::ErrorKind;
use crate::store::{is_file, StoreView};
use crate::utils::{backup_location, restore_outcome};

verus! {

/// The touched files of a list of operations are exactly the files of its
/// substitutions and deletions, and none of them is listed twice.
pub proof fn law_touched_files_are_exact(operations: Seq<PithoView>)
    ensures
        touched_of(operations).no_duplicates(),
        forall|path: Seq<char>|
            touched_of(operations).contains(path) <==> exists|i: int|
                0 <= i < operations.len() && (#[trigger] operations[i]).mutates() && operations[i].path()
                    == path,
    decreases operations.len(),
{
    if operations.len() > 0 {
        let front = operations.drop_last();
        let op = operations.last();
        law_touched_files_are_exact(front);
        assert forall|path: Seq<char>|
            touched_of(operations).contains(path) <==> exists|i: int|
                0 <= i < operations.len() && (#[trigger] operations[i]).mutates() && operations[i].path()
                    == path by {
            if touched_of(operations).contains(path) {
                if touched_of(front).contains(path) {
                    let i = choose|i: int|
                        0 <= i < front.len() && (#[trigger] front[i]).mutates() && front[i].path()
                            == path;
                    assert(operations[i] == front[i]);
                } else {
                    assert(operations[operations.len() - 1] == op);
                    let t = touched_of(operations);
                    let j = choose|j: int| 0 <= j < t.len() && t[j] == path;
                    if j < touched_of(front).len() {
                        assert(touched_of(front)[j] == path);
                    }
                }
            }
            if exists|i: int|
                0 <= i < operations.len() && (#[trigger] operations[i]).mutates() && operations[i].path()
                    == path {
                let i = choose|i: int|
                    0 <= i < operations.len() && (#[trigger] operations[i]).mutates()
                        && operations[i].path() == path;
                if i < front.len() {
                    assert(front[i] == operations[i]);
                    assert(touched_of(front).contains(path));
                    let j = choose|j: int|
                        0 <= j < touched_of(front).len() && touched_of(front)[j] == path;
                    assert(touched_of(operations)[j] == path);
                } else {
                    if touched_of(front).contains(path) {
                        let j = choose|j: int|
                            0 <= j < touched_of(front).len() && touched_of(front)[j] == path;
                        assert(touched_of(operations)[j] == path);
                    } else {
                        assert(touched_of(operations).last() == path);
                    }
                }
            }
        }
    }
}

proof fn lemma_restore_reads_its_stakes(
    a: StoreView,
    b: StoreView,
    root: Seq<char>,
    target: Seq<char>,
    paths: Set<Seq<char>>,
)
    requires
        same_on(a, b, paths),
        paths.contains(target),
        paths.contains(backup_location(root, target)),
    ensures
        match (restore_outcome(a, root, target), restore_outcome(b, root, target)) {
            (Ok(x), Ok(y)) => same_on(x, y, paths),
            (Err(e), Err(f)) => e == f,
            _ => false,
        },
{
}

proof fn lemma_operation_reads_its_stakes(
    a: StoreView,
    b: StoreView,
    op: PithoView,
    paths: Set<Seq<char>>,
)
    requires
        same_on(a, b, paths),
        forall|i: int| 0 <= i < stakes_of(op).len() ==> paths.contains(#[trigger] stakes_of(op)[i]),
    ensures
        match (op.outcome(a), op.outcome(b)) {
            (Ok(x), Ok(y)) => same_on(x, y, paths),
            (Err(e), Err(f)) => e == f,
            _ => false,
        },
{
    match op {
        PithoView::Backup { file_path, to } => {
            assert(stakes_of(op)[0] == file_path);
            assert(stakes_of(op)[1] == backup_location(to, file_path));
        },
        PithoView::RollBack { .. } => {},
        PithoView::Replace { file_path, .. } => {
            assert(stakes_of(op)[0] == file_path);
        },
        PithoView::Delete { file_path, .. } => {
            assert(stakes_of(op)[0] == file_path);
        },
    }
}

proof fn lemma_rollback_reads_its_stakes(
    touched: Seq<Seq<char>>,
    root: Seq<char>,
    a: StoreView,
    b: StoreView,
    i: int,
    paths: Set<Seq<char>>,
)
    requires
        same_on(a, b, paths),
        forall|j: int|
            0 <= j < touched.len() ==> paths.contains(#[trigger] touched[j]) && paths.contains(
                backup_location(root, touched[j]),
            ),
    ensures
        rollback_from(touched, root, a, i).1 == rollback_from(touched, root, b, i).1,
        same_on(rollback_from(touched, root, a, i).0, rollback_from(touched, root, b, i).0, paths),
    decreases touched.len() - i,
{
    if 0 <= i < touched.len() {
        lemma_restore_reads_its_stakes(a, b, root, touched[i], paths);
        match (restore_outcome(a, root, touched[i]), restore_outcome(b, root, touched[i])) {
            (Ok(x), Ok(y)) => {
                lemma_rollback_reads_its_stakes(touched, root, x, y, i + 1, paths);
            },
            _ => {},
        }
    }
}

proof fn lemma_operation_stakes_hold(operations: Seq<PithoView>, i: int, k: int)
    requires
        0 <= i < operations.len(),
        0 <= k < stakes_of(operations[i]).len(),
    ensures
        operation_stakes(operations).contains(stakes_of(operations[i])[k]),
    decreases operations.len(),
{
    let front = operation_stakes(operations.drop_last());
    let all = operation_stakes(operations);
    if i == operations.len() - 1 {
        assert(all[front.len() + k] == stakes_of(operations[i])[k]);
    } else {
        assert(operations.drop_last()[i] == operations[i]);
        lemma_operation_stakes_hold(operations.drop_last(), i, k);
        let at = choose|at: int| 0 <= at < front.len() && front[at] == stakes_of(operations[i])[k];
        assert(all[at] == front[at]);
    }
}

proof fn lemma_watched_holds_the_stakes(c: CharismView)
    ensures
        forall|j: int|
            0 <= j < c.touched.len() ==> watched(c).contains(#[trigger] c.touched[j])
                && watched(c).contains(backup_location(c.backup_home, c.touched[j])),
        forall|i: int, k: int|
            0 <= i < c.operations.len() && 0 <= k < stakes_of(c.operations[i]).len()
                ==> watched(c).contains(#[trigger] stakes_of(c.operations[i])[k]),
{
    let first = touched_stakes(c);
    let second = operation_stakes(c.operations);
    assert forall|j: int| 0 <= j < c.touched.len() implies watched(c).contains(
        #[trigger] c.touched[j],
    ) && watched(c).contains(backup_location(c.backup_home, c.touched[j])) by {
        assert(first[2 * j] == c.touched[j]);
        assert(first[2 * j + 1] == backup_location(c.backup_home, c.touched[j]));
        assert(watched(c)[2 * j] == first[2 * j]);
        assert(watched(c)[2 * j + 1] == first[2 * j + 1]);
    }
    assert forall|i: int, k: int|
        0 <= i < c.operations.len() && 0 <= k < stakes_of(
            c.operations[i],
        ).len() implies watched(c).contains(#[trigger] stakes_of(c.operations[i])[k]) by {
        lemma_operation_stakes_hold(c.operations, i, k);
        let e = stakes_of(c.operations[i])[k];
        let at = choose|at: int| 0 <= at < second.len() && second[at] == e;
        assert(watched(c)[first.len() + at] == second[at]);
    }
}

proof fn lemma_apply_reads_its_stakes(
    c: CharismView,
    a: StoreView,
    b: StoreView,
    i: int,
    paths: Set<Seq<char>>,
)
    requires
        same_on(a, b, paths),
        forall|j: int|
            0 <= j < c.touched.len() ==> paths.contains(#[trigger] c.touched[j]) && paths.contains(
                backup_location(c.backup_home, c.touched[j]),
            ),
        forall|i: int, k: int|
            0 <= i < c.operations.len() && 0 <= k < stakes_of(c.operations[i]).len()
                ==> paths.contains(#[trigger] stakes_of(c.operations[i])[k]),
    ensures
        apply_from(c, a, i).1 == apply_from(c, b, i).1,
        same_on(apply_from(c, a, i).0, apply_from(c, b, i).0, paths),
    decreases c.operations.len() - i,
{
    if 0 <= i < c.operations.len() {
        lemma_rollback_reads_its_stakes(c.touched, c.backup_home, a, b, 0, paths);
        if c.operations[i] is RollBack {
            let x = rollback_outcome(c, a);
            let y = rollback_outcome(c, b);
            if x.1 is None {
                lemma_apply_reads_its_stakes(c, x.0, y.0, i + 1, paths);
            }
        } else {
            lemma_operation_reads_its_stakes(a, b, c.operations[i], paths);
            match (c.operations[i].outcome(a), c.operations[i].outcome(b)) {
                (Ok(x), Ok(y)) => {
                    lemma_apply_reads_its_stakes(c, x, y, i + 1, paths);
                },
                _ => {},
            }
        }
    }
}

/// Rolling a feature back reads nothing but its watched paths: on two
/// stores that hold the same under these, it fails alike and leaves the
/// same under them.
pub proof fn law_rollback_reads_watched_paths(c: CharismView, a: StoreView, b: StoreView)
    requires
        same_on(a, b, watched(c).to_set()),
    ensures
        rollback_outcome(c, a).1 == rollback_outcome(c, b).1,
        same_on(rollback_outcome(c, a).0, rollback_outcome(c, b).0, watched(c).to_set()),
{
    lemma_watched_holds_the_stakes(c);
    lemma_rollback_reads_its_stakes(c.touched, c.backup_home, a, b, 0, watched(c).to_set());
}

/// Applying a feature reads nothing but its watched paths: on two stores
/// that hold the same under these, it fails alike and leaves the same under
/// them.
pub proof fn law_apply_reads_watched_paths(c: CharismView, a: StoreView, b: StoreView)
    requires
        same_on(a, b, watched(c).to_set()),
    ensures
        apply_outcome(c, a).1 == apply_outcome(c, b).1,
        same_on(apply_outcome(c, a).0, apply_outcome(c, b).0, watched(c).to_set()),
{
    lemma_watched_holds_the_stakes(c);
    lemma_apply_reads_its_stakes(c, a, b, 0, watched(c).to_set());
}

proof fn lemma_rollback_writes_touched_files(
    touched: Seq<Seq<char>>,
    root: Seq<char>,
    s: StoreView,
    i: int,
    path: Seq<char>,
)
    requires
        !touched.contains(path),
    ensures
        same_at(rollback_from(touched, root, s, i).0, s, path),
    decreases touched.len() - i,
{
    if 0 <= i < touched.len() {
        assert(touched[i] != path);
        match restore_outcome(s, root, touched[i]) {
            Ok(next) => {
                lemma_rollback_writes_touched_files(touched, root, next, i + 1, path);
            },
            Err(_) => {},
        }
    }
}

proof fn lemma_apply_writes_its_stakes(c: CharismView, s: StoreView, i: int, path: Seq<char>)
    requires
        !watched(c).contains(path),
    ensures
        same_at(apply_from(c, s, i).0, s, path),
    decreases c.operations.len() - i,
{
    lemma_watched_holds_the_stakes(c);
    if c.touched.contains(path) {
        let j = choose|j: int| 0 <= j < c.touched.len() && c.touched[j] == path;
        assert(watched(c).contains(c.touched[j]));
    }
    if 0 <= i < c.operations.len() {
        let op = c.operations[i];
        lemma_rollback_writes_touched_files(c.touched, c.backup_home, s, 0, path);
        if op is RollBack {
            let cleared = rollback_outcome(c, s);
            if cleared.1 is None {
                lemma_apply_writes_its_stakes(c, cleared.0, i + 1, path);
            }
        } else {
            match op {
                PithoView::Backup { file_path, to } => {
                    assert(stakes_of(op)[1] == backup_location(to, file_path));
                },
                PithoView::RollBack { .. } => {},
                PithoView::Replace { file_path, .. } => {
                    assert(stakes_of(op)[0] == file_path);
                },
                PithoView::Delete { file_path, .. } => {
                    assert(stakes_of(op)[0] == file_path);
                },
            }
            match op.outcome(s) {
                Ok(next) => {
                    assert(same_at(next, s, path));
                    lemma_apply_writes_its_stakes(c, next, i + 1, path);
                },
                Err(_) => {},
            }
        }
    }
}

/// Rolling a feature back changes nothing but its touched files.
pub proof fn law_rollback_writes_touched_files(c: CharismView, s: StoreView, path: Seq<char>)
    requires
        !c.touched.contains(path),
    ensures
        same_at(rollback_outcome(c, s).0, s, path),
{
    lemma_rollback_writes_touched_files(c.touched, c.backup_home, s, 0, path);
}

/// Applying a feature changes nothing but its watched paths.
pub proof fn law_apply_writes_watched_paths(c: CharismView, s: StoreView, path: Seq<char>)
    requires
        !watched(c).contains(path),
    ensures
        same_at(apply_outcome(c, s).0, s, path),
{
    lemma_apply_writes_its_stakes(c, s, 0, path);
}

/// The touched files of `c` are files of `s`, each with a file as its
/// backup, and the two sorts of path are kept apart: no touched file is
/// listed twice, and none is the place of a backup.
pub open spec fn backed(c: CharismView, s: StoreView) -> bool {
    &&& c.touched.no_duplicates()
    &&& forall|i: int, j: int|
        0 <= i < c.touched.len() && 0 <= j < c.touched.len() ==> #[trigger] c.touched[i]
            != backup_location(c.backup_home, #[trigger] c.touched[j])
    &&& forall|j: int|
        0 <= j < c.touched.len() ==> is_file(s, #[trigger] c.touched[j]) && is_file(
            s,
            backup_location(c.backup_home, c.touched[j]),
        )
}

/// The backups of the touched files are in `after` what they were in
/// `before`.
pub open spec fn backups_kept(c: CharismView, before: StoreView, after: StoreView) -> bool {
    forall|j: int|
        0 <= j < c.touched.len() ==> same_at(
            after,
            before,
            backup_location(c.backup_home, #[trigger] c.touched[j]),
        )
}

/// The touched files `touched[..upto]` hold the text of their backups.
pub open spec fn pristine_upto(c: CharismView, s: StoreView, upto: int) -> bool {
    forall|j: int|
        0 <= j < upto && j < c.touched.len() ==> s[#[trigger] c.touched[j]]->File_content
            == s[backup_location(c.backup_home, c.touched[j])]->File_content
}

/// Every touched file holds the text of its backup.
pub open spec fn pristine(c: CharismView, s: StoreView) -> bool {
    pristine_upto(c, s, c.touched.len() as int)
}

proof fn lemma_rollback_restores(c: CharismView, s: StoreView, i: int)
    requires
        0 <= i,
        backed(c, s),
        pristine_upto(c, s, i),
    ensures
        rollback_from(c.touched, c.backup_home, s, i).1 is None,
        backed(c, rollback_from(c.touched, c.backup_home, s, i).0),
        pristine(c, rollback_from(c.touched, c.backup_home, s, i).0),
        backups_kept(c, s, rollback_from(c.touched, c.backup_home, s, i).0),
    decreases c.touched.len() - i,
{
    if i < c.touched.len() {
        let target = c.touched[i];
        let place = backup_location(c.backup_home, target);
        let next = restore_outcome(s, c.backup_home, target)->Ok_0;
        assert(restore_outcome(s, c.backup_home, target) is Ok);
        assert forall|j: int| 0 <= j < c.touched.len() implies is_file(
            next,
            #[trigger] c.touched[j],
        ) && is_file(next, backup_location(c.backup_home, c.touched[j])) by {
            assert(is_file(s, c.touched[j]));
        }
        assert(pristine_upto(c, next, i + 1)) by {
            assert forall|j: int| 0 <= j < i + 1 && j < c.touched.len() implies next[
                #[trigger] c.touched[j]
            ]->File_content == next[backup_location(
                c.backup_home,
                c.touched[j],
            )]->File_content by {
                assert(is_file(s, c.touched[j]));
                if j < i {
                    assert(c.touched[j] != c.touched[i]);
                }
            }
        }
        lemma_rollback_restores(c, next, i + 1);
        let out = rollback_from(c.touched, c.backup_home, next, i + 1).0;
        assert forall|j: int| 0 <= j < c.touched.len() implies same_at(
            out,
            s,
            backup_location(c.backup_home, #[trigger] c.touched[j]),
        ) by {
            assert(same_at(out, next, backup_location(c.backup_home, c.touched[j])));
            assert(c.touched[i] != backup_location(c.backup_home, c.touched[j]));
        }
    }
}

/// Rolling back a feature whose touched files and backups are in place
/// succeeds, and every touched file then holds the text of its backup; the
/// backups stay as they are.
pub proof fn law_rollback_restores_the_backups(c: CharismView, s: StoreView)
    requires
        backed(c, s),
    ensures
        rollback_outcome(c, s).1 is None,
        backed(c, rollback_outcome(c, s).0),
        pristine(c, rollback_outcome(c, s).0),
        backups_kept(c, s, rollback_outcome(c, s).0),
{
    lemma_rollback_restores(c, s, 0);
}

proof fn lemma_apply_is_all_or_nothing(c: CharismView, s: StoreView, i: int)
    requires
        0 <= i,
        well_formed(c),
        backed(c, s),
        forall|k: int| 0 <= k < c.operations.len() ==> !(#[trigger] c.operations[k] is Backup),
    ensures
        backed(c, apply_from(c, s, i).0),
        backups_kept(c, s, apply_from(c, s, i).0),
        apply_from(c, s, i).1 is Some ==> pristine(c, apply_from(c, s, i).0),
    decreases c.operations.len() - i,
{
    if i < c.operations.len() {
        let op = c.operations[i];
        lemma_rollback_restores(c, s, 0);
        let cleared = rollback_outcome(c, s).0;
        if op is RollBack {
            lemma_apply_is_all_or_nothing(c, cleared, i + 1);
            let out = apply_from(c, cleared, i + 1).0;
            assert forall|j: int| 0 <= j < c.touched.len() implies same_at(
                out,
                s,
                backup_location(c.backup_home, #[trigger] c.touched[j]),
            ) by {
                assert(same_at(out, cleared, backup_location(c.backup_home, c.touched[j])));
            }
        } else {
            assert(op.mutates());
            law_touched_files_are_exact(c.operations);
            assert(c.touched.contains(op.path()));
            let at = choose|at: int| 0 <= at < c.touched.len() && c.touched[at] == op.path();
            match op.outcome(s) {
                Ok(next) => {
                    assert forall|j: int| 0 <= j < c.touched.len() implies is_file(
                        next,
                        #[trigger] c.touched[j],
                    ) && is_file(next, backup_location(c.backup_home, c.touched[j])) by {
                        assert(is_file(s, c.touched[j]));
                        assert(c.touched[at] != backup_location(c.backup_home, c.touched[j]));
                    }
                    lemma_apply_is_all_or_nothing(c, next, i + 1);
                    let out = apply_from(c, next, i + 1).0;
                    assert forall|j: int| 0 <= j < c.touched.len() implies same_at(
                        out,
                        s,
                        backup_location(c.backup_home, #[trigger] c.touched[j]),
                    ) by {
                        assert(same_at(out, next, backup_location(c.backup_home, c.touched[j])));
                        assert(c.touched[at] != backup_location(c.backup_home, c.touched[j]));
                    }
                },
                Err(_) => {},
            }
        }
    }
}

/// Applying a feature is all or nothing. Where the touched files and their
/// backups are in place, and the feature holds substitutions and deletions
/// only, a run that fails leaves every touched file with the text of its
/// backup; and no run, failed or not, changes a backup.
pub proof fn law_apply_is_all_or_nothing(c: CharismView, s: StoreView)
    requires
        well_formed(c),
        backed(c, s),
        forall|k: int| 0 <= k < c.operations.len() ==> !(#[trigger] c.operations[k] is Backup),
    ensures
        backed(c, apply_outcome(c, s).0),
        backups_kept(c, s, apply_outcome(c, s).0),
        apply_outcome(c, s).1 is Some ==> pristine(c, apply_outcome(c, s).0),
{
    lemma_apply_is_all_or_nothing(c, s, 0);
}

proof fn lemma_rollback_of_pristine(c: CharismView, s: StoreView, i: int)
    requires
        0 <= i,
        backed(c, s),
        pristine(c, s),
    ensures
        rollback_from(c.touched, c.backup_home, s, i) == (s, None::<ErrorKind>),
    decreases c.touched.len() - i,
{
    if i < c.touched.len() {
        let target = c.touched[i];
        assert(is_file(s, target));
        assert(s[target]->File_content == s[backup_location(
            c.backup_home,
            target,
        )]->File_content);
        assert(restore_outcome(s, c.backup_home, target)->Ok_0 =~= s);
        lemma_rollback_of_pristine(c, s, i + 1);
    }
}

/// Rolling back twice is rolling back once: what a rollback leaves is left
/// as it is by the next.
pub proof fn law_rollback_twice_is_rollback_once(c: CharismView, s: StoreView)
    requires
        backed(c, s),
    ensures
        rollback_outcome(c, rollback_outcome(c, s).0) == rollback_outcome(c, s),
{
    lemma_rollback_restores(c, s, 0);
    lemma_rollback_of_pristine(c, rollback_outcome(c, s).0, 0);
}

/// None of the touched files is marked as the output stream.
pub open spec fn plain(c: CharismView, s: StoreView) -> bool {
    forall|j: int| 0 <= j < c.touched.len() ==> !(s[#[trigger] c.touched[j]]->File_is_output)
}

proof fn lemma_rollback_keeps_marks(
    touched: Seq<Seq<char>>,
    root: Seq<char>,
    s: StoreView,
    i: int,
    path: Seq<char>,
)
    requires
        is_file(s, path),
    ensures
        is_file(rollback_from(touched, root, s, i).0, path),
        rollback_from(touched, root, s, i).0[path]->File_is_output == s[path]->File_is_output,
    decreases touched.len() - i,
{
    if 0 <= i < touched.len() {
        match restore_outcome(s, root, touched[i]) {
            Ok(next) => {
                lemma_rollback_keeps_marks(touched, root, next, i + 1, path);
            },
            Err(_) => {},
        }
    }
}

proof fn lemma_apply_keeps_plain(c: CharismView, s: StoreView, i: int)
    requires
        0 <= i,
        backed(c, s),
        plain(c, s),
        well_formed(c),
        forall|k: int| 0 <= k < c.operations.len() ==> !(#[trigger] c.operations[k] is Backup),
    ensures
        plain(c, apply_from(c, s, i).0),
    decreases c.operations.len() - i,
{
    if i < c.operations.len() {
        let op = c.operations[i];
        lemma_rollback_restores(c, s, 0);
        let cleared = rollback_outcome(c, s).0;
        assert(plain(c, cleared)) by {
            assert forall|j: int| 0 <= j < c.touched.len() implies !(cleared[
                #[trigger] c.touched[j]
            ]->File_is_output) by {
                lemma_rollback_keeps_marks(c.touched, c.backup_home, s, 0, c.touched[j]);
            }
        }
        if op is RollBack {
            lemma_apply_keeps_plain(c, cleared, i + 1);
        } else {
            assert(op.mutates());
            law_touched_files_are_exact(c.operations);
            assert(c.touched.contains(op.path()));
            let at = choose|at: int| 0 <= at < c.touched.len() && c.touched[at] == op.path();
            match op.outcome(s) {
                Ok(next) => {
                    assert forall|j: int| 0 <= j < c.touched.len() implies is_file(
                        next,
                        #[trigger] c.touched[j],
                    ) && is_file(next, backup_location(c.backup_home, c.touched[j])) by {
                        assert(is_file(s, c.touched[j]));
                        assert(c.touched[at] != backup_location(c.backup_home, c.touched[j]));
                    }
                    assert forall|j: int| 0 <= j < c.touched.len() implies !(next[
                        #[trigger] c.touched[j]
                    ]->File_is_output) by {
                        assert(!(s[c.touched[j]]->File_is_output));
                    }
                    lemma_apply_keeps_plain(c, next, i + 1);
                },
                Err(_) => {},
            }
        }
    }
}

proof fn lemma_apply_writes_touched_files(c: CharismView, s: StoreView, i: int, path: Seq<char>)
    requires
        well_formed(c),
        forall|k: int| 0 <= k < c.operations.len() ==> !(#[trigger] c.operations[k] is Backup),
        !c.touched.contains(path),
    ensures
        same_at(apply_from(c, s, i).0, s, path),
    decreases c.operations.len() - i,
{
    if 0 <= i < c.operations.len() {
        let op = c.operations[i];
        lemma_rollback_writes_touched_files(c.touched, c.backup_home, s, 0, path);
        if op is RollBack {
            let cleared = rollback_outcome(c, s);
            if cleared.1 is None {
                lemma_apply_writes_touched_files(c, cleared.0, i + 1, path);
            }
        } else {
            assert(op.mutates());
            law_touched_files_are_exact(c.operations);
            assert(c.touched.contains(op.path()));
            match op.outcome(s) {
                Ok(next) => {
                    assert(same_at(next, s, path));
                    lemma_apply_writes_touched_files(c, next, i + 1, path);
                },
                Err(_) => {},
            }
        }
    }
}

/// Applying twice is applying once. The rollback marker at the head brings
/// the touched files back to their backups before the operations run, so a
/// feature that was applied with success can be applied again and leaves
/// the same store: no substitution is made on top of its own result.
pub proof fn law_apply_twice_is_apply_once(c: CharismView, s: StoreView)
    requires
        well_formed(c),
        backed(c, s),
        plain(c, s),
        forall|k: int| 0 <= k < c.operations.len() ==> !(#[trigger] c.operations[k] is Backup),
        apply_outcome(c, s).1 is None,
    ensures
        apply_outcome(c, apply_outcome(c, s).0) == apply_outcome(c, s),
{
    let home = c.backup_home;
    let first = rollback_outcome(c, s).0;
    let once = apply_outcome(c, s).0;
    let second = rollback_outcome(c, once).0;
    lemma_rollback_restores(c, s, 0);
    lemma_apply_is_all_or_nothing(c, s, 0);
    lemma_apply_keeps_plain(c, s, 0);
    lemma_rollback_restores(c, once, 0);
    assert(apply_outcome(c, s) == apply_from(c, first, 1));
    assert(apply_outcome(c, once) == apply_from(c, second, 1));
    assert forall|path: Seq<char>|
        (#[trigger] first.dom().contains(path)) == second.dom().contains(path) && (
        first.dom().contains(path) ==> first[path] == second[path]) by {
        if c.touched.contains(path) {
            let j = choose|j: int| 0 <= j < c.touched.len() && c.touched[j] == path;
            let place = backup_location(home, c.touched[j]);
            lemma_rollback_keeps_marks(c.touched, home, s, 0, c.touched[j]);
            lemma_rollback_keeps_marks(c.touched, home, once, 0, c.touched[j]);
            assert(is_file(s, c.touched[j]) && is_file(once, c.touched[j]));
            assert(same_at(first, s, place) && same_at(once, s, place) && same_at(
                second,
                once,
                place,
            ));
            assert(first[path]->File_content == first[place]->File_content);
            assert(second[path]->File_content == second[place]->File_content);
            assert(!(s[c.touched[j]]->File_is_output));
            assert(!(once[c.touched[j]]->File_is_output));
            assert(is_file(first, path) && is_file(second, path));
            assert(first[path] == second[path]);
        } else {
            lemma_rollback_writes_touched_files(c.touched, home, s, 0, path);
            lemma_rollback_writes_touched_files(c.touched, home, once, 0, path);
            lemma_apply_writes_touched_files(c, s, 0, path);
            assert(same_at(first, s, path) && same_at(second, once, path) && same_at(
                once,
                s,
                path,
            ));
        }
    }
    assert(first =~= second);
}

} // verus!
