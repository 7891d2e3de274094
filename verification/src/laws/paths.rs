//! Laws of paths: what the final component of a path is.

use vstd::prelude::*;
use crate::utils::{final_component, is_separator, joined, name_start, trimmed};

verus! {

proof fn lemma_name_start(path: Seq<char>)
    ensures
        0 <= name_start(path) <= path.len(),
        forall|i: int| name_start(path) <= i < path.len() ==> !is_separator(#[trigger] path[i]),
        name_start(path) == 0 || is_separator(path[name_start(path) - 1]),
    decreases path.len(),
{
    if !(path.len() == 0 || is_separator(path.last())) {
        let front = path.drop_last();
        lemma_name_start(front);
        assert forall|i: int| name_start(path) <= i < path.len() implies !is_separator(
            #[trigger] path[i],
        ) by {
            if i < front.len() {
                assert(front[i] == path[i]);
            }
        }
        if name_start(path) != 0 {
            assert(front[name_start(path) - 1] == path[name_start(path) - 1]);
        }
    }
}

proof fn lemma_trimmed(path: Seq<char>)
    ensures
        trimmed(path).len() <= path.len(),
        trimmed(path) == path.take(trimmed(path).len() as int),
        trimmed(path).len() == 0 || !is_separator(trimmed(path).last()),
        forall|i: int| trimmed(path).len() <= i < path.len() ==> is_separator(#[trigger] path[i]),
    decreases path.len(),
{
    if path.len() > 0 && is_separator(path.last()) {
        let front = path.drop_last();
        lemma_trimmed(front);
        assert(front.take(trimmed(front).len() as int) =~= path.take(trimmed(front).len() as int));
        assert forall|i: int| trimmed(path).len() <= i < path.len() implies is_separator(
            #[trigger] path[i],
        ) by {
            if i < front.len() {
                assert(front[i] == path[i]);
            }
        }
    } else {
        assert(path.take(path.len() as int) =~= path);
    }
}

/// The final component of a path holds no separator, and the path is made
/// of what stands before the component, the component, and separators
/// behind it; what stands before it is empty or ends with a separator.
pub proof fn law_final_component_is_the_last_name(path: Seq<char>)
    ensures
        forall|i: int|
            0 <= i < final_component(path).len() ==> !is_separator(
                #[trigger] final_component(path)[i],
            ),
        ({
            let end = trimmed(path).len() as int;
            let start = end - final_component(path).len();
            &&& 0 <= start <= end <= path.len()
            &&& final_component(path) == path.subrange(start, end)
            &&& start == 0 || is_separator(path[start - 1])
            &&& forall|i: int| end <= i < path.len() ==> is_separator(#[trigger] path[i])
            &&& final_component(path).len() == 0 ==> end == 0
        }),
{
    let t = trimmed(path);
    lemma_trimmed(path);
    lemma_name_start(t);
    let start = name_start(t);
    assert(final_component(path) =~= path.subrange(start, t.len() as int));
    if start != 0 {
        assert(t[start - 1] == path[start - 1]);
    }
}

proof fn lemma_name_start_of_appended(before: Seq<char>, name: Seq<char>)
    requires
        before.len() == 0 || is_separator(before.last()),
        forall|i: int| 0 <= i < name.len() ==> !is_separator(#[trigger] name[i]),
    ensures
        name_start(before + name) == before.len(),
    decreases name.len(),
{
    if name.len() == 0 {
        assert(before + name =~= before);
    } else {
        let whole = before + name;
        assert(whole.last() == name[name.len() - 1]);
        assert(whole.drop_last() =~= before + name.drop_last());
        assert forall|i: int| 0 <= i < name.drop_last().len() implies !is_separator(
            #[trigger] name.drop_last()[i],
        ) by {
            assert(name.drop_last()[i] == name[i]);
        }
        lemma_name_start_of_appended(before, name.drop_last());
    }
}

/// The final component of a path that was joined from a base and a plain
/// name is that name. So the backup of a file of the catalog lies under
/// the file's own name in the backup directory.
pub proof fn law_final_component_of_joined(base: Seq<char>, name: Seq<char>)
    requires
        name.len() > 0,
        forall|i: int| 0 <= i < name.len() ==> !is_separator(#[trigger] name[i]),
    ensures
        final_component(joined(base, name)) == name,
{
    let before = if base.len() == 0 || is_separator(base.last()) {
        base
    } else {
        base + seq!['/']
    };
    let whole = joined(base, name);
    assert(!is_separator(name[0]));
    assert(whole =~= before + name);
    assert(whole.last() == name[name.len() - 1]);
    assert(trimmed(whole) == whole);
    lemma_name_start_of_appended(before, name);
    assert(whole.subrange(before.len() as int, whole.len() as int) =~= name);
}

} // verus!
