//! A small keyed table: values found by a text key.
//!
//! The table is a list of slots. Its view is the map that results from
//! entering the slots one after the other, so a later slot with the same key
//! hides an earlier one. `put` overwrites the slot that is in force, which
//! keeps the list free of hidden slots.

use vstd::prelude::*;

verus! {

/// One key with its value.
struct Slot<T> {
    key: String,
    value: T,
}

/// A table from text keys to values of `T`.
pub struct Table<T> {
    slots: Vec<Slot<T>>,
}

/// The map that a list of key/value pairs stands for: pairs are entered from
/// the front, so the last pair with a given key decides.
spec fn map_of<V>(pairs: Seq<(Seq<char>, V)>) -> Map<Seq<char>, V>
    decreases pairs.len(),
{
    if pairs.len() == 0 {
        Map::empty()
    } else {
        map_of(pairs.drop_last()).insert(pairs.last().0, pairs.last().1)
    }
}

/// The key/value pairs of a list of slots, each value by its view.
spec fn pairs_of<T: View>(slots: Seq<Slot<T>>) -> Seq<(Seq<char>, T::V)> {
    Seq::new(slots.len(), |i: int| (slots[i].key@, slots[i].value@))
}

/// `i` is the slot in force for `key`: it holds the key and no later slot does.
spec fn in_force<V>(pairs: Seq<(Seq<char>, V)>, key: Seq<char>, i: int) -> bool {
    &&& 0 <= i < pairs.len()
    &&& pairs[i].0 == key
    &&& forall|j: int| i < j < pairs.len() ==> (#[trigger] pairs[j]).0 != key
}

/// No slot holds `key`.
spec fn absent<V>(pairs: Seq<(Seq<char>, V)>, key: Seq<char>) -> bool {
    forall|j: int| 0 <= j < pairs.len() ==> (#[trigger] pairs[j]).0 != key
}

/// `key` is the text of one of `list`.
pub open spec fn listed(list: Seq<String>, key: Seq<char>) -> bool {
    exists|i: int| 0 <= i < list.len() && (#[trigger] list[i])@ == key
}

/// `key` is the key of one of the first `upto` pairs.
spec fn occurs<V>(pairs: Seq<(Seq<char>, V)>, upto: int, key: Seq<char>) -> bool {
    exists|j: int| 0 <= j < upto && j < pairs.len() && (#[trigger] pairs[j]).0 == key
}

proof fn lemma_map_of_push<V>(pairs: Seq<(Seq<char>, V)>, key: Seq<char>, value: V)
    ensures
        map_of(pairs.push((key, value))) == map_of(pairs).insert(key, value),
{
    assert(pairs.push((key, value)).drop_last() =~= pairs);
}

proof fn lemma_map_of_absent<V>(pairs: Seq<(Seq<char>, V)>, key: Seq<char>)
    requires
        absent(pairs, key),
    ensures
        !map_of(pairs).contains_key(key),
    decreases pairs.len(),
{
    if pairs.len() > 0 {
        let front = pairs.drop_last();
        assert forall|j: int| 0 <= j < front.len() implies (#[trigger] front[j]).0 != key by {
            assert(front[j] == pairs[j]);
        }
        lemma_map_of_absent(front, key);
        assert(pairs.last() == pairs[pairs.len() - 1]);
    }
}

proof fn lemma_map_of_in_force<V>(pairs: Seq<(Seq<char>, V)>, key: Seq<char>, i: int)
    requires
        in_force(pairs, key, i),
    ensures
        map_of(pairs).contains_key(key),
        map_of(pairs)[key] == pairs[i].1,
    decreases pairs.len(),
{
    let front = pairs.drop_last();
    if i < pairs.len() - 1 {
        assert(front[i] == pairs[i]);
        assert forall|j: int| i < j < front.len() implies (#[trigger] front[j]).0 != key by {
            assert(front[j] == pairs[j]);
        }
        lemma_map_of_in_force(front, key, i);
        assert(pairs.last() == pairs[pairs.len() - 1]);
    }
}

proof fn lemma_map_of_update<V>(pairs: Seq<(Seq<char>, V)>, key: Seq<char>, i: int, value: V)
    requires
        in_force(pairs, key, i),
    ensures
        map_of(pairs.update(i, (key, value))) == map_of(pairs).insert(key, value),
    decreases pairs.len(),
{
    let after = pairs.update(i, (key, value));
    let front = pairs.drop_last();
    if i < pairs.len() - 1 {
        assert(front[i] == pairs[i]);
        assert forall|j: int| i < j < front.len() implies (#[trigger] front[j]).0 != key by {
            assert(front[j] == pairs[j]);
        }
        lemma_map_of_update(front, key, i, value);
        assert(after.drop_last() =~= front.update(i, (key, value)));
        assert(after.last() == pairs.last());
        assert(pairs.last() == pairs[pairs.len() - 1]);
        assert(map_of(after) =~= map_of(pairs).insert(key, value));
    } else {
        assert(after.drop_last() =~= front);
        assert(map_of(after) =~= map_of(pairs).insert(key, value));
    }
}

proof fn lemma_map_of_contains<V>(pairs: Seq<(Seq<char>, V)>, key: Seq<char>)
    ensures
        map_of(pairs).contains_key(key) <==> !absent(pairs, key),
    decreases pairs.len(),
{
    if pairs.len() > 0 {
        let front = pairs.drop_last();
        lemma_map_of_contains(front, key);
        assert(pairs.last() == pairs[pairs.len() - 1]);
        if absent(pairs, key) {
            assert forall|j: int| 0 <= j < front.len() implies (#[trigger] front[j]).0 != key by {
                assert(front[j] == pairs[j]);
            }
        } else if pairs.last().0 != key {
            let j = choose|j: int| 0 <= j < pairs.len() && (#[trigger] pairs[j]).0 == key;
            assert(front[j] == pairs[j]);
        }
    }
}

proof fn lemma_listed_push(list: Seq<String>, last: String, key: Seq<char>)
    ensures
        listed(list.push(last), key) <==> listed(list, key) || last@ == key,
{
    let longer = list.push(last);
    if listed(list, key) {
        let i = choose|i: int| 0 <= i < list.len() && (#[trigger] list[i])@ == key;
        assert(longer[i] == list[i]);
    }
    if last@ == key {
        assert(longer[list.len() as int]@ == key);
    }
    if listed(longer, key) {
        let i = choose|i: int| 0 <= i < longer.len() && (#[trigger] longer[i])@ == key;
        if i < list.len() {
            assert(list[i] == longer[i]);
        }
    }
}

proof fn lemma_occurs_step<V>(pairs: Seq<(Seq<char>, V)>, upto: int, key: Seq<char>)
    requires
        0 <= upto < pairs.len(),
    ensures
        occurs(pairs, upto + 1, key) <==> occurs(pairs, upto, key) || pairs[upto].0 == key,
{
    if occurs(pairs, upto, key) {
        let j = choose|j: int| 0 <= j < upto && j < pairs.len() && (#[trigger] pairs[j]).0 == key;
        assert(0 <= j < upto + 1 && pairs[j].0 == key);
    }
    if pairs[upto].0 == key {
        assert(occurs(pairs, upto + 1, key));
    }
}

impl<T: View> View for Table<T> {
    type V = Map<Seq<char>, T::V>;

    closed spec fn view(&self) -> Map<Seq<char>, T::V> {
        map_of(pairs_of(self.slots@))
    }
}

/// Values that can be copied: the copy has the view of what it was made of.
pub trait Duplicate: View + Sized {
    /// A value with the same view.
    fn duplicate(&self) -> (copy: Self)
        ensures
            copy@ == self@,
    ;
}

impl Duplicate for String {
    fn duplicate(&self) -> (copy: String) {
        self.clone()
    }
}

fn lists(list: &Vec<String>, key: &String) -> (b: bool)
    ensures
        b == listed(list@, key@),
{
    let mut k: usize = 0;
    while k < list.len()
        invariant
            k <= list.len(),
            forall|a: int| 0 <= a < k ==> (#[trigger] list[a])@ != key@,
        decreases list.len() - k,
    {
        if list[k] == *key {
            return true;
        }
        k = k + 1;
    }
    false
}

impl<T: View> Table<T> {
    /// The empty table.
    pub fn new() -> (t: Self)
        ensures
            t@ == Map::<Seq<char>, T::V>::empty(),
    {
        Table { slots: Vec::new() }
    }

    /// The index of the slot in force for `key`, if there is one.
    fn position(&self, key: &String) -> (r: Option<usize>)
        ensures
            match r {
                Some(i) => in_force(pairs_of(self.slots@), key@, i as int),
                None => absent(pairs_of(self.slots@), key@),
            },
    {
        let ghost pairs = pairs_of(self.slots@);
        let mut i: usize = self.slots.len();
        while i > 0
            invariant
                i <= self.slots.len(),
                pairs == pairs_of(self.slots@),
                forall|j: int| i <= j < pairs.len() ==> (#[trigger] pairs[j]).0 != key@,
            decreases i,
        {
            i = i - 1;
            if self.slots[i].key == *key {
                return Some(i);
            }
        }
        None
    }

    /// Whether the table has a value for `key`.
    pub fn contains(&self, key: &str) -> (b: bool)
        ensures
            b == self@.contains_key(key@),
    {
        let owned = key.to_owned();
        match self.position(&owned) {
            Some(i) => {
                proof {
                    lemma_map_of_in_force(pairs_of(self.slots@), key@, i as int);
                }
                true
            },
            None => {
                proof {
                    lemma_map_of_absent(pairs_of(self.slots@), key@);
                }
                false
            },
        }
    }

    /// The value for `key`, if the table has one.
    pub fn get(&self, key: &str) -> (r: Option<&T>)
        ensures
            match r {
                Some(value) => self@.contains_key(key@) && value@ == self@[key@],
                None => !self@.contains_key(key@),
            },
    {
        let owned = key.to_owned();
        match self.position(&owned) {
            Some(i) => {
                proof {
                    lemma_map_of_in_force(pairs_of(self.slots@), key@, i as int);
                }
                Some(&self.slots[i].value)
            },
            None => {
                proof {
                    lemma_map_of_absent(pairs_of(self.slots@), key@);
                }
                None
            },
        }
    }

    /// Enters `value` for `key`, in place of the value that was in force.
    pub fn put(&mut self, key: &str, value: T)
        ensures
            final(self)@ == old(self)@.insert(key@, value@),
    {
        let owned = key.to_owned();
        let ghost before = pairs_of(self.slots@);
        match self.position(&owned) {
            Some(i) => {
                self.slots.set(i, Slot { key: owned, value });
                proof {
                    lemma_map_of_update(before, key@, i as int, value@);
                    assert(pairs_of(self.slots@) =~= before.update(i as int, (key@, value@)));
                }
            },
            None => {
                self.slots.push(Slot { key: owned, value });
                proof {
                    lemma_map_of_push(before, key@, value@);
                    assert(pairs_of(self.slots@) =~= before.push((key@, value@)));
                }
            },
        }
    }

    /// The keys of the table, each once.
    pub fn keys(&self) -> (ks: Vec<String>)
        ensures
            forall|key: Seq<char>| self@.contains_key(key) <==> #[trigger] listed(ks@, key),
            forall|i: int, j: int|
                0 <= i < j < ks.len() ==> (#[trigger] ks[i])@ != (#[trigger] ks[j])@,
    {
        let ghost pairs = pairs_of(self.slots@);
        let mut ks: Vec<String> = Vec::new();
        let mut i: usize = 0;
        while i < self.slots.len()
            invariant
                i <= self.slots.len(),
                pairs == pairs_of(self.slots@),
                forall|a: int, b: int|
                    0 <= a < b < ks.len() ==> (#[trigger] ks[a])@ != (#[trigger] ks[b])@,
                forall|key: Seq<char>| #[trigger]
                    listed(ks@, key) <==> occurs(pairs, i as int, key),
            decreases self.slots.len() - i,
        {
            let key = &self.slots[i].key;
            let ghost before = ks@;
            let seen = lists(&ks, key);
            if !seen {
                ks.push(key.clone());
            }
            proof {
                assert(pairs[i as int].0 == key@);
                assert forall|other: Seq<char>| #[trigger]
                    listed(ks@, other) <==> occurs(pairs, i + 1, other) by {
                    lemma_occurs_step(pairs, i as int, other);
                    if !seen {
                        lemma_listed_push(before, self.slots@[i as int].key, other);
                    }
                }
                if !seen {
                    assert forall|a: int, b: int| 0 <= a < b < ks.len() implies (#[trigger] ks[a])@
                        != (#[trigger] ks[b])@ by {
                        if b == before.len() {
                            assert(ks[a] == before[a]);
                            if before[a]@ == key@ {
                                assert(listed(before, key@));
                            }
                        }
                    }
                }
            }
            i = i + 1;
        }
        proof {
            assert forall|key: Seq<char>| self@.contains_key(key) <==> #[trigger] listed(
                ks@,
                key,
            ) by {
                lemma_map_of_contains(pairs, key);
                if !absent(pairs, key) {
                    let j = choose|j: int| 0 <= j < pairs.len() && (#[trigger] pairs[j]).0 == key;
                    assert(occurs(pairs, pairs.len() as int, key));
                }
            }
        }
        ks
    }
}

impl<T: Duplicate> Table<T> {
    /// Enters every value of `other`, in place of what the table held for
    /// the same key.
    pub fn absorb(&mut self, other: &Table<T>)
        ensures
            final(self)@ == old(self)@.union_prefer_right(other@),
    {
        let ghost before = self@;
        let ghost pairs = pairs_of(other.slots@);
        let mut i: usize = 0;
        assert(self@ =~= before.union_prefer_right(map_of(pairs.take(0))));
        while i < other.slots.len()
            invariant
                i <= other.slots.len(),
                pairs == pairs_of(other.slots@),
                self@ == before.union_prefer_right(map_of(pairs.take(i as int))),
            decreases other.slots.len() - i,
        {
            let slot = &other.slots[i];
            self.put(slot.key.as_str(), slot.value.duplicate());
            proof {
                let done = pairs.take(i as int);
                let next = pairs.take(i + 1);
                assert(next.drop_last() =~= done);
                assert(next.last() == pairs[i as int]);
                assert(self@ =~= before.union_prefer_right(map_of(next)));
            }
            i = i + 1;
        }
        assert(pairs.take(i as int) =~= pairs);
    }

    /// A table with the same keys and values.
    pub fn duplicate(&self) -> (t: Table<T>)
        ensures
            t@ == self@,
    {
        let mut t: Table<T> = Table::new();
        t.absorb(self);
        assert(t@ =~= self@);
        t
    }
}

} // verus!
