//! Laws of the registry: what a rebuild leaves behind, and what it reads
//! and writes.

use vstd::prelude::*;
use crate::assemble::{
    assemble_from, assemble_outcome, feature_at, ops_of, place_of, rebuild_outcome, rules_of,
    AssembleView,
};
use crate::components::{
    add_all_from, add_outcome, cleared, touched_of, well_formed, CharismView, PithoView,
};
use crate::laws::features::{backed, law_touched_files_are_exact, plain};
use crate::laws::files::{same_at, same_on};
use crate::store::{is_file, StoreView};
use crate::utils::{backup_location, joined};

verus! {

/// `after` is `before` with `added` behind its operations, and with the
/// touched files that go with them.
pub open spec fn extended(before: CharismView, after: CharismView, added: Seq<PithoView>) -> bool {
    &&& after.operations == before.operations + added
    &&& after.touched == touched_of(after.operations)
    &&& after.group == before.group
    &&& after.name == before.name
    &&& after.description == before.description
    &&& after.backup_home == before.backup_home
}

proof fn lemma_add_all_extends(c: CharismView, s: StoreView, ops: Seq<PithoView>, i: int)
    requires
        0 <= i <= ops.len(),
        well_formed(c),
    ensures
        add_all_from(c, s, ops, i).2 is None ==> extended(
            c,
            add_all_from(c, s, ops, i).0,
            ops.subrange(i, ops.len() as int),
        ) && well_formed(add_all_from(c, s, ops, i).0),
    decreases ops.len() - i,
{
    if i < ops.len() {
        match add_outcome(c, s, ops[i]) {
            Ok((next, saved)) => {
                assert(next.operations.drop_last() =~= c.operations);
                assert(well_formed(next));
                lemma_add_all_extends(next, saved, ops, i + 1);
                if add_all_from(c, s, ops, i).2 is None {
                    let out = add_all_from(next, saved, ops, i + 1).0;
                    assert(out.operations =~= c.operations + ops.subrange(i, ops.len() as int));
                }
            },
            Err(_) => {},
        }
    } else {
        assert(c.operations + ops.subrange(i, ops.len() as int) =~= c.operations);
    }
}

proof fn lemma_assemble_extends(a: AssembleView, s: StoreView, place: int)
    requires
        0 <= place <= 6,
        a.features.len() == 6,
        forall|j: int| 0 <= j < 6 ==> well_formed(#[trigger] a.features[j]),
    ensures
        assemble_from(a, s, place).2 is None ==> {
            let out = assemble_from(a, s, place).0;
            &&& out.hades_path == a.hades_path
            &&& out.features.len() == 6
            &&& forall|j: int|
                0 <= j < place ==> #[trigger] out.features[j] == a.features[j]
            &&& forall|j: int|
                place <= j < 6 ==> extended(
                    a.features[j],
                    #[trigger] out.features[j],
                    ops_of(a.hades_path, rules_of(feature_at(j))),
                )
        },
    decreases 6 - place,
{
    if place < 6 {
        let feature = feature_at(place);
        assert(place_of(feature) == place);
        let ops = ops_of(a.hades_path, rules_of(feature));
        let step = assemble_outcome(a, s, feature);
        lemma_add_all_extends(a.features[place], s, ops, 0);
        assert(ops.subrange(0, ops.len() as int) =~= ops);
        if step.2 is None {
            assert forall|j: int| 0 <= j < 6 implies well_formed(#[trigger] step.0.features[j]) by {
                if j != place {
                    assert(step.0.features[j] == a.features[j]);
                }
            }
            lemma_assemble_extends(step.0, step.1, place + 1);
            if assemble_from(a, s, place).2 is None {
                let out = assemble_from(step.0, step.1, place + 1).0;
                assert forall|j: int| place <= j < 6 implies extended(
                    a.features[j],
                    #[trigger] out.features[j],
                    ops_of(a.hades_path, rules_of(feature_at(j))),
                ) by {
                    if j == place {
                        assert(out.features[j] == step.0.features[j]);
                    } else {
                        assert(step.0.features[j] == a.features[j]);
                    }
                }
                assert forall|j: int| 0 <= j < place implies #[trigger] out.features[j]
                    == a.features[j] by {
                    assert(out.features[j] == step.0.features[j]);
                }
            }
        }
    }
}

/// A rebuild that succeeds leaves each feature with the rollback marker and
/// the rules of the catalog, their files resolved under the root that is
/// set, and with the touched files of these operations: nothing of what the
/// features held before is left.
pub proof fn law_rebuild_enters_the_catalog(a: AssembleView, s: StoreView)
    requires
        a.features.len() == 6,
        rebuild_outcome(a, s).2 is None,
    ensures
        rebuild_outcome(a, s).0.hades_path == a.hades_path,
        rebuild_outcome(a, s).0.features.len() == 6,
        forall|j: int|
            0 <= j < 6 ==> extended(
                cleared(a.features[j]),
                #[trigger] rebuild_outcome(a, s).0.features[j],
                ops_of(a.hades_path, rules_of(feature_at(j))),
            ),
        forall|j: int, k: int|
            0 <= j < 6 && 0 <= k < rules_of(feature_at(j)).len() ==> (
            #[trigger] rebuild_outcome(a, s).0.features[j].operations[k + 1]).path() == joined(
                a.hades_path,
                rules_of(feature_at(j))[k].file_name@,
            ),
{
    let start = AssembleView { features: a.features.map_values(|c: CharismView| cleared(c)), ..a };
    assert forall|j: int| 0 <= j < 6 implies well_formed(#[trigger] start.features[j]) by {
        let c = start.features[j];
        assert(c == cleared(a.features[j]));
        assert(c.operations.drop_last() =~= Seq::<PithoView>::empty());
        assert(touched_of(c.operations.drop_last()) =~= Seq::<Seq<char>>::empty());
        assert(touched_of(c.operations) =~= Seq::<Seq<char>>::empty());
    }
    lemma_assemble_extends(start, s, 0);
    let out = rebuild_outcome(a, s).0;
    assert forall|j: int, k: int|
        0 <= j < 6 && 0 <= k < rules_of(feature_at(j)).len() implies (#[trigger] out.features[j].operations[k
            + 1]).path() == joined(a.hades_path, rules_of(feature_at(j))[k].file_name@) by {
        let ops = ops_of(a.hades_path, rules_of(feature_at(j)));
        assert(extended(start.features[j], out.features[j], ops));
        assert(start.features[j] == cleared(a.features[j]));
        assert(out.features[j].operations[k + 1] == ops[k]);
    }
}

/// A rebuild does not depend on what the features held before: registries
/// that agree on the root and on the names and backup directories of their
/// features are rebuilt alike.
pub proof fn law_rebuild_forgets(a: AssembleView, b: AssembleView, s: StoreView)
    requires
        a.hades_path == b.hades_path,
        a.features.len() == b.features.len(),
        forall|j: int|
            0 <= j < a.features.len() ==> cleared(#[trigger] a.features[j]) == cleared(
                b.features[j],
            ),
    ensures
        rebuild_outcome(a, s) == rebuild_outcome(b, s),
{
    assert(a.features.map_values(|c: CharismView| cleared(c)) =~= b.features.map_values(
        |c: CharismView| cleared(c),
    ));
}

proof fn lemma_add_all_reads_its_stakes(
    c: CharismView,
    a: StoreView,
    b: StoreView,
    ops: Seq<PithoView>,
    i: int,
    paths: Set<Seq<char>>,
)
    requires
        same_on(a, b, paths),
        forall|k: int|
            0 <= k < ops.len() ==> paths.contains((#[trigger] ops[k]).path()) && paths.contains(
                backup_location(c.backup_home, ops[k].path()),
            ),
    ensures
        add_all_from(c, a, ops, i).0 == add_all_from(c, b, ops, i).0,
        add_all_from(c, a, ops, i).2 == add_all_from(c, b, ops, i).2,
        same_on(add_all_from(c, a, ops, i).1, add_all_from(c, b, ops, i).1, paths),
    decreases ops.len() - i,
{
    if 0 <= i < ops.len() {
        let op = ops[i];
        assert(paths.contains(op.path()));
        assert(paths.contains(backup_location(c.backup_home, op.path())));
        match (add_outcome(c, a, op), add_outcome(c, b, op)) {
            (Ok(x), Ok(y)) => {
                assert(x.0 == y.0);
                assert(same_on(x.1, y.1, paths));
                lemma_add_all_reads_its_stakes(x.0, x.1, y.1, ops, i + 1, paths);
            },
            (Err(e), Err(f)) => {
                assert(e == f);
            },
            _ => {
                assert(false);
            },
        }
    }
}

/// The paths that a rebuild of `a` reads or writes hold `paths`: the file
/// of every rule, resolved under the root, and the place of its backup.
pub open spec fn holds_the_targets(a: AssembleView, paths: Set<Seq<char>>) -> bool {
    forall|j: int, k: int|
        0 <= j < 6 && 0 <= k < rules_of(feature_at(j)).len() ==> paths.contains(
            joined(a.hades_path, (#[trigger] rules_of(feature_at(j))[k]).file_name@),
        ) && paths.contains(
            backup_location(
                a.features[j].backup_home,
                joined(a.hades_path, rules_of(feature_at(j))[k].file_name@),
            ),
        )
}

proof fn lemma_assemble_reads_its_stakes(
    r: AssembleView,
    a: StoreView,
    b: StoreView,
    place: int,
    paths: Set<Seq<char>>,
)
    requires
        0 <= place,
        r.features.len() == 6,
        same_on(a, b, paths),
        holds_the_targets(r, paths),
    ensures
        assemble_from(r, a, place).0 == assemble_from(r, b, place).0,
        assemble_from(r, a, place).2 == assemble_from(r, b, place).2,
        same_on(assemble_from(r, a, place).1, assemble_from(r, b, place).1, paths),
    decreases 6 - place,
{
    if place < 6 {
        let feature = feature_at(place);
        assert(place_of(feature) == place);
        let list = rules_of(feature);
        let ops = ops_of(r.hades_path, list);
        let c = r.features[place];
        assert forall|k: int| 0 <= k < ops.len() implies paths.contains(
            (#[trigger] ops[k]).path(),
        ) && paths.contains(backup_location(c.backup_home, ops[k].path())) by {
            assert(ops[k].path() == joined(r.hades_path, list[k].file_name@));
            assert(paths.contains(joined(r.hades_path, (rules_of(feature_at(place))[k]).file_name@)));
        }
        lemma_add_all_reads_its_stakes(c, a, b, ops, 0, paths);
        let x = assemble_outcome(r, a, feature);
        let y = assemble_outcome(r, b, feature);
        assert(x.0 == y.0);
        if x.2 is None {
            lemma_add_all_extends_home(c, a, ops, 0);
            assert forall|j: int, k: int|
                0 <= j < 6 && 0 <= k < rules_of(feature_at(j)).len() implies paths.contains(
                joined(x.0.hades_path, (#[trigger] rules_of(feature_at(j))[k]).file_name@),
            ) && paths.contains(
                backup_location(
                    x.0.features[j].backup_home,
                    joined(x.0.hades_path, rules_of(feature_at(j))[k].file_name@),
                ),
            ) by {
                assert(x.0.features[j].backup_home == r.features[j].backup_home);
                assert(paths.contains(
                    joined(r.hades_path, (rules_of(feature_at(j))[k]).file_name@),
                ));
            }
            lemma_assemble_reads_its_stakes(x.0, x.1, y.1, place + 1, paths);
        }
    }
}

proof fn lemma_add_all_extends_home(c: CharismView, s: StoreView, ops: Seq<PithoView>, i: int)
    ensures
        add_all_from(c, s, ops, i).0.backup_home == c.backup_home,
    decreases ops.len() - i,
{
    if 0 <= i < ops.len() {
        match add_outcome(c, s, ops[i]) {
            Ok((next, saved)) => {
                lemma_add_all_extends_home(next, saved, ops, i + 1);
            },
            Err(_) => {},
        }
    }
}

/// A rebuild reads nothing but the files of its rules and the places of
/// their backups: on two stores that hold the same under these, it fails
/// alike, builds the same registry and leaves the same under them.
pub proof fn law_rebuild_reads_its_targets(
    r: AssembleView,
    a: StoreView,
    b: StoreView,
    paths: Set<Seq<char>>,
)
    requires
        r.features.len() == 6,
        same_on(a, b, paths),
        holds_the_targets(r, paths),
    ensures
        rebuild_outcome(r, a).0 == rebuild_outcome(r, b).0,
        rebuild_outcome(r, a).2 == rebuild_outcome(r, b).2,
        same_on(rebuild_outcome(r, a).1, rebuild_outcome(r, b).1, paths),
{
    let start = AssembleView { features: r.features.map_values(|c: CharismView| cleared(c)), ..r };
    assert forall|j: int, k: int|
        0 <= j < 6 && 0 <= k < rules_of(feature_at(j)).len() implies paths.contains(
        joined(start.hades_path, (#[trigger] rules_of(feature_at(j))[k]).file_name@),
    ) && paths.contains(
        backup_location(
            start.features[j].backup_home,
            joined(start.hades_path, rules_of(feature_at(j))[k].file_name@),
        ),
    ) by {
        assert(start.features[j] == cleared(r.features[j]));
        assert(paths.contains(joined(r.hades_path, (rules_of(feature_at(j))[k]).file_name@)));
    }
    lemma_assemble_reads_its_stakes(start, a, b, 0, paths);
}

proof fn lemma_add_all_writes_backups(
    c: CharismView,
    s: StoreView,
    ops: Seq<PithoView>,
    i: int,
    path: Seq<char>,
)
    requires
        forall|k: int|
            0 <= k < ops.len() ==> path != backup_location(
                c.backup_home,
                (#[trigger] ops[k]).path(),
            ),
    ensures
        same_at(add_all_from(c, s, ops, i).1, s, path),
    decreases ops.len() - i,
{
    if 0 <= i < ops.len() {
        assert(path != backup_location(c.backup_home, ops[i].path()));
        match add_outcome(c, s, ops[i]) {
            Ok((next, saved)) => {
                lemma_add_all_writes_backups(next, saved, ops, i + 1, path);
            },
            Err(_) => {},
        }
    }
}

proof fn lemma_assemble_writes_backups(r: AssembleView, s: StoreView, place: int, path: Seq<char>)
    requires
        0 <= place,
        r.features.len() == 6,
        forall|j: int, k: int|
            0 <= j < 6 && 0 <= k < rules_of(feature_at(j)).len() ==> path != backup_location(
                r.features[j].backup_home,
                joined(r.hades_path, (#[trigger] rules_of(feature_at(j))[k]).file_name@),
            ),
    ensures
        same_at(assemble_from(r, s, place).1, s, path),
    decreases 6 - place,
{
    if place < 6 {
        let feature = feature_at(place);
        assert(place_of(feature) == place);
        let list = rules_of(feature);
        let ops = ops_of(r.hades_path, list);
        let c = r.features[place];
        assert forall|k: int| 0 <= k < ops.len() implies path != backup_location(
            c.backup_home,
            (#[trigger] ops[k]).path(),
        ) by {
            assert(ops[k].path() == joined(r.hades_path, list[k].file_name@));
            assert(path != backup_location(
                r.features[place].backup_home,
                joined(r.hades_path, (rules_of(feature_at(place))[k]).file_name@),
            ));
        }
        lemma_add_all_writes_backups(c, s, ops, 0, path);
        let x = assemble_outcome(r, s, feature);
        if x.2 is None {
            lemma_add_all_extends_home(c, s, ops, 0);
            assert forall|j: int, k: int|
                0 <= j < 6 && 0 <= k < rules_of(feature_at(j)).len() implies path
                != backup_location(
                x.0.features[j].backup_home,
                joined(x.0.hades_path, (#[trigger] rules_of(feature_at(j))[k]).file_name@),
            ) by {
                assert(x.0.features[j].backup_home == r.features[j].backup_home);
                assert(path != backup_location(
                    r.features[j].backup_home,
                    joined(r.hades_path, (rules_of(feature_at(j))[k]).file_name@),
                ));
            }
            lemma_assemble_writes_backups(x.0, x.1, place + 1, path);
        }
    }
}

/// A rebuild writes nothing but backups: a path that is not the place of
/// the backup of a rule's file is after the rebuild what it was before.
pub proof fn law_rebuild_writes_backups(r: AssembleView, s: StoreView, path: Seq<char>)
    requires
        r.features.len() == 6,
        forall|j: int, k: int|
            0 <= j < 6 && 0 <= k < rules_of(feature_at(j)).len() ==> path != backup_location(
                r.features[j].backup_home,
                joined(r.hades_path, (#[trigger] rules_of(feature_at(j))[k]).file_name@),
            ),
    ensures
        same_at(rebuild_outcome(r, s).1, s, path),
{
    let start = AssembleView { features: r.features.map_values(|c: CharismView| cleared(c)), ..r };
    assert forall|j: int, k: int|
        0 <= j < 6 && 0 <= k < rules_of(feature_at(j)).len() implies path != backup_location(
        start.features[j].backup_home,
        joined(start.hades_path, (#[trigger] rules_of(feature_at(j))[k]).file_name@),
    ) by {
        assert(start.features[j] == cleared(r.features[j]));
        assert(path != backup_location(
            r.features[j].backup_home,
            joined(r.hades_path, (rules_of(feature_at(j))[k]).file_name@),
        ));
    }
    lemma_assemble_writes_backups(start, s, 0, path);
}

/// The store `s` holds an ordinary file under each of `targets`, and
/// nothing but files under `places`; no path is of both sorts.
pub open spec fn safe(s: StoreView, targets: Set<Seq<char>>, places: Set<Seq<char>>) -> bool {
    &&& forall|p: Seq<char>| #[trigger]
        targets.contains(p) ==> is_file(s, p) && !(s[p]->File_is_output) && !places.contains(p)
    &&& forall|p: Seq<char>| #[trigger] places.contains(p) && s.contains_key(p) ==> is_file(s, p)
}

/// Every touched file of `c` is one of `targets` and has its backup, one of
/// `places`, in the store.
pub open spec fn settled(
    c: CharismView,
    s: StoreView,
    targets: Set<Seq<char>>,
    places: Set<Seq<char>>,
) -> bool {
    forall|j: int|
        0 <= j < c.touched.len() ==> {
            &&& targets.contains(#[trigger] c.touched[j])
            &&& places.contains(backup_location(c.backup_home, c.touched[j]))
            &&& s.contains_key(backup_location(c.backup_home, c.touched[j]))
        }
}

/// The store `after` holds every path that `before` holds.
pub open spec fn grown(before: StoreView, after: StoreView) -> bool {
    forall|p: Seq<char>| #[trigger] before.contains_key(p) ==> after.contains_key(p)
}

proof fn lemma_add_all_backs(
    c: CharismView,
    s: StoreView,
    ops: Seq<PithoView>,
    i: int,
    targets: Set<Seq<char>>,
    places: Set<Seq<char>>,
)
    requires
        0 <= i,
        safe(s, targets, places),
        settled(c, s, targets, places),
        forall|k: int|
            0 <= k < ops.len() ==> targets.contains((#[trigger] ops[k]).path()) && places.contains(
                backup_location(c.backup_home, ops[k].path()),
            ),
    ensures
        add_all_from(c, s, ops, i).2 is None,
        safe(add_all_from(c, s, ops, i).1, targets, places),
        settled(add_all_from(c, s, ops, i).0, add_all_from(c, s, ops, i).1, targets, places),
        grown(s, add_all_from(c, s, ops, i).1),
    decreases ops.len() - i,
{
    if i < ops.len() {
        let op = ops[i];
        assert(targets.contains(op.path()));
        assert(places.contains(backup_location(c.backup_home, op.path())));
        assert(is_file(s, op.path()));
        assert(add_outcome(c, s, op) is Ok);
        let next = add_outcome(c, s, op)->Ok_0.0;
        let saved = add_outcome(c, s, op)->Ok_0.1;
        assert(grown(s, saved));
        assert(safe(saved, targets, places)) by {
            assert forall|p: Seq<char>| #[trigger] targets.contains(p) implies is_file(saved, p)
                && !(saved[p]->File_is_output) && !places.contains(p) by {
                assert(is_file(s, p));
            }
        }
        assert(settled(next, saved, targets, places)) by {
            assert forall|j: int| 0 <= j < next.touched.len() implies {
                &&& targets.contains(#[trigger] next.touched[j])
                &&& places.contains(backup_location(next.backup_home, next.touched[j]))
                &&& saved.contains_key(backup_location(next.backup_home, next.touched[j]))
            } by {
                if j < c.touched.len() {
                    assert(next.touched[j] == c.touched[j]);
                    assert(s.contains_key(backup_location(c.backup_home, c.touched[j])));
                }
            }
        }
        lemma_add_all_backs(next, saved, ops, i + 1, targets, places);
    }
}

proof fn lemma_assemble_backs(
    r: AssembleView,
    s: StoreView,
    place: int,
    targets: Set<Seq<char>>,
    places: Set<Seq<char>>,
)
    requires
        0 <= place <= 6,
        r.features.len() == 6,
        safe(s, targets, places),
        forall|j: int| 0 <= j < 6 ==> settled(#[trigger] r.features[j], s, targets, places),
        forall|j: int, k: int|
            0 <= j < 6 && 0 <= k < rules_of(feature_at(j)).len() ==> targets.contains(
                joined(r.hades_path, (#[trigger] rules_of(feature_at(j))[k]).file_name@),
            ) && places.contains(
                backup_location(
                    r.features[j].backup_home,
                    joined(r.hades_path, rules_of(feature_at(j))[k].file_name@),
                ),
            ),
    ensures
        assemble_from(r, s, place).2 is None,
        assemble_from(r, s, place).0.features.len() == 6,
        safe(assemble_from(r, s, place).1, targets, places),
        forall|j: int|
            0 <= j < 6 ==> settled(
                #[trigger] assemble_from(r, s, place).0.features[j],
                assemble_from(r, s, place).1,
                targets,
                places,
            ),
    decreases 6 - place,
{
    if place < 6 {
        let feature = feature_at(place);
        assert(place_of(feature) == place);
        let list = rules_of(feature);
        let ops = ops_of(r.hades_path, list);
        let c = r.features[place];
        assert forall|k: int| 0 <= k < ops.len() implies targets.contains(
            (#[trigger] ops[k]).path(),
        ) && places.contains(backup_location(c.backup_home, ops[k].path())) by {
            assert(ops[k].path() == joined(r.hades_path, list[k].file_name@));
            assert(targets.contains(
                joined(r.hades_path, (rules_of(feature_at(place))[k]).file_name@),
            ));
        }
        lemma_add_all_backs(c, s, ops, 0, targets, places);
        lemma_add_all_extends_home(c, s, ops, 0);
        let x = assemble_outcome(r, s, feature);
        assert forall|j: int| 0 <= j < 6 implies settled(
            #[trigger] x.0.features[j],
            x.1,
            targets,
            places,
        ) by {
            if j != place {
                let other = r.features[j];
                assert(x.0.features[j] == other);
                assert(settled(other, s, targets, places));
                assert forall|t: int| 0 <= t < other.touched.len() implies x.1.contains_key(
                    backup_location(other.backup_home, #[trigger] other.touched[t]),
                ) by {
                    assert(s.contains_key(backup_location(other.backup_home, other.touched[t])));
                }
            }
        }
        assert forall|j: int, k: int|
            0 <= j < 6 && 0 <= k < rules_of(feature_at(j)).len() implies targets.contains(
            joined(x.0.hades_path, (#[trigger] rules_of(feature_at(j))[k]).file_name@),
        ) && places.contains(
            backup_location(
                x.0.features[j].backup_home,
                joined(x.0.hades_path, rules_of(feature_at(j))[k].file_name@),
            ),
        ) by {
            assert(x.0.features[j].backup_home == r.features[j].backup_home);
            assert(targets.contains(
                joined(r.hades_path, (rules_of(feature_at(j))[k]).file_name@),
            ));
        }
        lemma_assemble_backs(x.0, x.1, place + 1, targets, places);
    }
}

/// Where the store holds the files of the catalog under the root, and
/// nothing but files where their backups go, a rebuild succeeds, and every
/// feature is then backed: its touched files and their backups are files
/// of the store, so that applying it is all or nothing, and applying it
/// twice is applying it once.
pub proof fn law_rebuild_backs_the_features(
    r: AssembleView,
    s: StoreView,
    targets: Set<Seq<char>>,
    places: Set<Seq<char>>,
)
    requires
        r.features.len() == 6,
        safe(s, targets, places),
        forall|j: int, k: int|
            0 <= j < 6 && 0 <= k < rules_of(feature_at(j)).len() ==> targets.contains(
                joined(r.hades_path, (#[trigger] rules_of(feature_at(j))[k]).file_name@),
            ) && places.contains(
                backup_location(
                    r.features[j].backup_home,
                    joined(r.hades_path, rules_of(feature_at(j))[k].file_name@),
                ),
            ),
    ensures
        rebuild_outcome(r, s).2 is None,
        forall|j: int|
            0 <= j < 6 ==> backed(
                #[trigger] rebuild_outcome(r, s).0.features[j],
                rebuild_outcome(r, s).1,
            ) && plain(rebuild_outcome(r, s).0.features[j], rebuild_outcome(r, s).1)
                && well_formed(rebuild_outcome(r, s).0.features[j]),
        forall|j: int, k: int|
            0 <= j < 6 && 0 <= k < rebuild_outcome(r, s).0.features[j].operations.len() ==> !(
            #[trigger] rebuild_outcome(r, s).0.features[j].operations[k] is Backup),
{
    let start = AssembleView { features: r.features.map_values(|c: CharismView| cleared(c)), ..r };
    assert forall|j: int| 0 <= j < 6 implies settled(
        #[trigger] start.features[j],
        s,
        targets,
        places,
    ) by {
        assert(start.features[j] == cleared(r.features[j]));
    }
    assert forall|j: int, k: int|
        0 <= j < 6 && 0 <= k < rules_of(feature_at(j)).len() implies targets.contains(
        joined(start.hades_path, (#[trigger] rules_of(feature_at(j))[k]).file_name@),
    ) && places.contains(
        backup_location(
            start.features[j].backup_home,
            joined(start.hades_path, rules_of(feature_at(j))[k].file_name@),
        ),
    ) by {
        assert(start.features[j] == cleared(r.features[j]));
        assert(targets.contains(joined(r.hades_path, (rules_of(feature_at(j))[k]).file_name@)));
    }
    lemma_assemble_backs(start, s, 0, targets, places);
    law_rebuild_enters_the_catalog(r, s);
    let out = rebuild_outcome(r, s);
    assert forall|j: int| 0 <= j < 6 implies backed(#[trigger] out.0.features[j], out.1) && plain(
        out.0.features[j],
        out.1,
    ) && well_formed(out.0.features[j]) by {
        let c = out.0.features[j];
        assert(settled(c, out.1, targets, places));
        law_touched_files_are_exact(c.operations);
        assert(extended(
            cleared(r.features[j]),
            c,
            ops_of(r.hades_path, rules_of(feature_at(j))),
        ));
        assert(c.operations[0] == cleared(r.features[j]).operations[0]);
        assert forall|a: int, b: int|
            0 <= a < c.touched.len() && 0 <= b < c.touched.len() implies #[trigger] c.touched[a]
            != backup_location(c.backup_home, #[trigger] c.touched[b]) by {
            assert(targets.contains(c.touched[a]));
            assert(places.contains(backup_location(c.backup_home, c.touched[b])));
        }
        assert forall|t: int| 0 <= t < c.touched.len() implies is_file(
            out.1,
            #[trigger] c.touched[t],
        ) && is_file(out.1, backup_location(c.backup_home, c.touched[t])) by {
            assert(targets.contains(c.touched[t]));
            assert(places.contains(backup_location(c.backup_home, c.touched[t])));
        }
        assert forall|t: int| 0 <= t < c.touched.len() implies !(out.1[
            #[trigger] c.touched[t]
        ]->File_is_output) by {
            assert(targets.contains(c.touched[t]));
        }
    }
    assert forall|j: int, k: int|
        0 <= j < 6 && 0 <= k < out.0.features[j].operations.len() implies !(
    #[trigger] out.0.features[j].operations[k] is Backup) by {
        let c = out.0.features[j];
        let ops = ops_of(r.hades_path, rules_of(feature_at(j)));
        assert(extended(cleared(r.features[j]), c, ops));
        if k > 0 {
            assert(c.operations[k] == ops[k - 1]);
        }
    }
}

} // verus!
