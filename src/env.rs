use vstd::prelude::*;

use crate::value::Value;

verus! {

/// The value a name has under `bindings`: `Null` for a name never set.
pub open spec fn lookup(bindings: Map<Seq<char>, Value>, name: Seq<char>) -> Value {
    if bindings.contains_key(name) {
        bindings[name]
    } else {
        Value::Null
    }
}

/// A store of variables: a map from names to values.
pub trait Env {
    /// The value bound to each name that has one.
    spec fn bindings(&self) -> Map<Seq<char>, Value>;

    /// The store's internal invariant.
    spec fn wf(&self) -> bool;

    /// The value of `key`; `Null` when it has none (which is no error).
    fn get(&self, key: &str) -> (r: Value)
        requires
            self.wf(),
        ensures
            r == lookup(self.bindings(), key@),
    ;

    /// Binds `key` to `val`, replacing any value it had.
    fn set(&mut self, key: &str, val: Value)
        requires
            old(self).wf(),
        ensures
            final(self).wf(),
            final(self).bindings() == old(self).bindings().insert(key@, val),
    ;
}

/// The map that a list of entries with distinct names stands for.
pub open spec fn map_of(entries: Seq<(String, Value)>) -> Map<Seq<char>, Value>
    decreases entries.len(),
{
    if entries.len() == 0 {
        Map::empty()
    } else {
        let last = entries.last();
        map_of(entries.drop_last()).insert(last.0@, last.1)
    }
}

pub open spec fn distinct_names(entries: Seq<(String, Value)>) -> bool {
    forall|i: int, j: int|
        0 <= i < entries.len() && 0 <= j < entries.len() && i != j ==> #[trigger] entries[i].0@
            != #[trigger] entries[j].0@
}

proof fn lemma_map_of_found(entries: Seq<(String, Value)>, i: int)
    requires
        distinct_names(entries),
        0 <= i < entries.len(),
    ensures
        map_of(entries).contains_key(entries[i].0@),
        map_of(entries)[entries[i].0@] == entries[i].1,
    decreases entries.len(),
{
    if i < entries.len() - 1 {
        let init = entries.drop_last();
        assert(init[i] == entries[i]);
        assert(distinct_names(init));
        lemma_map_of_found(init, i);
        assert(entries[entries.len() - 1].0@ != entries[i].0@);
    }
}

proof fn lemma_map_of_absent(entries: Seq<(String, Value)>, name: Seq<char>)
    requires
        forall|i: int| 0 <= i < entries.len() ==> #[trigger] entries[i].0@ != name,
    ensures
        !map_of(entries).contains_key(name),
    decreases entries.len(),
{
    if entries.len() > 0 {
        let init = entries.drop_last();
        assert forall|i: int| 0 <= i < init.len() implies #[trigger] init[i].0@ != name by {
            assert(init[i] == entries[i]);
        }
        lemma_map_of_absent(init, name);
    }
}

proof fn lemma_map_of_update(entries: Seq<(String, Value)>, i: int, e: (String, Value))
    requires
        distinct_names(entries),
        0 <= i < entries.len(),
        e.0@ == entries[i].0@,
    ensures
        map_of(entries.update(i, e)) == map_of(entries).insert(e.0@, e.1),
    decreases entries.len(),
{
    let updated = entries.update(i, e);
    let init = entries.drop_last();
    if i == entries.len() - 1 {
        assert(updated.drop_last() =~= init);
        assert(map_of(updated) =~= map_of(entries).insert(e.0@, e.1));
    } else {
        assert(updated.drop_last() =~= init.update(i, e));
        assert(distinct_names(init));
        lemma_map_of_update(init, i, e);
        assert(entries[entries.len() - 1].0@ != entries[i].0@);
        assert(map_of(updated) =~= map_of(entries).insert(e.0@, e.1));
    }
}

/// The flat store: one binding per name, no nested scopes.
pub struct Local {
    values: Vec<(String, Value)>,
}

impl Local {
    pub fn new() -> (r: Local)
        ensures
            r.wf(),
            r.bindings() == Map::<Seq<char>, Value>::empty(),
    {
        let r = Local { values: Vec::new() };
        assert(r.values@.len() == 0);
        r
    }

    /// The index of the entry named `key`, if there is one.
    fn find(&self, key: &str) -> (r: Option<usize>)
        ensures
            match r {
                Some(i) => i < self.values.len() && self.values@[i as int].0@ == key@,
                None => forall|i: int|
                    0 <= i < self.values.len() ==> #[trigger] self.values@[i].0@ != key@,
            },
    {
        let k = String::from_str(key);
        let mut i: usize = 0;
        while i < self.values.len()
            invariant
                i <= self.values.len(),
                k@ == key@,
                forall|j: int| 0 <= j < i ==> #[trigger] self.values@[j].0@ != key@,
            decreases self.values.len() - i,
        {
            if self.values[i].0 == k {
                return Some(i);
            }
            i = i + 1;
        }
        None
    }
}

impl Env for Local {
    closed spec fn bindings(&self) -> Map<Seq<char>, Value> {
        map_of(self.values@)
    }

    closed spec fn wf(&self) -> bool {
        distinct_names(self.values@)
    }

    fn get(&self, key: &str) -> (r: Value) {
        match self.find(key) {
            Some(i) => {
                proof {
                    lemma_map_of_found(self.values@, i as int);
                }
                self.values[i].1.duplicate()
            },
            None => {
                proof {
                    lemma_map_of_absent(self.values@, key@);
                }
                Value::Null
            },
        }
    }

    fn set(&mut self, key: &str, val: Value) {
        let ghost before = self.values@;
        let k = String::from_str(key);
        match self.find(key) {
            Some(i) => {
                proof {
                    lemma_map_of_update(before, i as int, (k, val));
                }
                self.values.set(i, (k, val));
                assert(self.values@ == before.update(i as int, (k, val)));
            },
            None => {
                self.values.push((k, val));
                assert(self.values@.drop_last() =~= before);
                assert(distinct_names(self.values@));
            },
        }
    }
}

} // verus!
