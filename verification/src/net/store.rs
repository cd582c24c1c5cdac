//! The mapping from names to values.

use vstd::prelude::*;
use vstd::string::*;
use crate::net::variant::{Value, Variant};

verus! {

/// One named value.
struct Entry {
    key: String,
    value: Variant,
}

/// Some entry of `es` has the key `k`.
spec fn has_key(es: Seq<Entry>, k: Seq<char>) -> bool {
    exists|i: int| 0 <= i < es.len() && #[trigger] es[i].key@ == k
}

/// The place of an entry of `es` with the key `k`.
spec fn place_of(es: Seq<Entry>, k: Seq<char>) -> int {
    choose|i: int| 0 <= i < es.len() && #[trigger] es[i].key@ == k
}

/// No two entries of `es` have the same key.
spec fn distinct_keys(es: Seq<Entry>) -> bool {
    forall|i: int, j: int| 0 <= i < j < es.len() ==> #[trigger] es[i].key@ != #[trigger] es[j].key@
}

/// The mapping that the entries stand for.
spec fn entries_map(es: Seq<Entry>) -> Map<Seq<char>, Value> {
    Map::new(|k: Seq<char>| has_key(es, k), |k: Seq<char>| es[place_of(es, k)].value@)
}

/// Where keys are distinct, the entry at `i` is the one found by its key.
proof fn lemma_place(es: Seq<Entry>, i: int)
    requires
        distinct_keys(es),
        0 <= i < es.len(),
    ensures
        has_key(es, es[i].key@),
        place_of(es, es[i].key@) == i,
        entries_map(es).contains_key(es[i].key@),
        entries_map(es)[es[i].key@] == es[i].value@,
{
    let k = es[i].key@;
    assert(es[i].key@ == k);
    let j = place_of(es, k);
    assert(0 <= j < es.len() && es[j].key@ == k);
    if j != i {
        if j < i {
            assert(es[j].key@ != es[i].key@);
        } else {
            assert(es[i].key@ != es[j].key@);
        }
    }
}

/// The place of the entry named `key`, if there is one.
fn find(entries: &Vec<Entry>, key: &String) -> (r: Option<usize>)
    ensures
        match r {
            Some(i) => i < entries.len() && entries[i as int].key@ == key@,
            None => !has_key(entries@, key@),
        },
{
    let mut i: usize = 0;
    while i < entries.len()
        invariant
            i <= entries.len(),
            forall|j: int| 0 <= j < i ==> entries[j].key@ != key@,
        decreases entries.len() - i,
    {
        if entries[i].key == *key {
            return Some(i);
        }
        i = i + 1;
    }
    None
}

/// Puts `value` under `key`, in place of what was there.
fn put(entries: &mut Vec<Entry>, key: String, value: Variant)
    requires
        distinct_keys(old(entries)@),
    ensures
        distinct_keys(final(entries)@),
        entries_map(final(entries)@) == entries_map(old(entries)@).insert(key@, value@),
{
    let ghost before = entries@;
    let ghost name = key@;
    match find(entries, &key) {
        Some(i) => {
            entries.set(i, Entry { key, value });
            proof {
                let after = entries@;
                assert(distinct_keys(after)) by {
                    assert forall|a: int, b: int| 0 <= a < b < after.len() implies after[a].key@
                        != after[b].key@ by {
                        assert(after[a].key@ == before[a].key@);
                        assert(after[b].key@ == before[b].key@);
                    }
                }
                assert forall|k: Seq<char>| has_key(after, k) == has_key(before, k) by {
                    if has_key(after, k) {
                        let j = place_of(after, k);
                        assert(before[j].key@ == k);
                    }
                    if has_key(before, k) {
                        let j = place_of(before, k);
                        assert(after[j].key@ == k);
                    }
                }
                lemma_place(before, i as int);
                assert forall|k: Seq<char>| has_key(after, k) implies entries_map(after)[k]
                    == entries_map(before).insert(name, value@)[k] by {
                    let j = place_of(after, k);
                    lemma_place(after, j);
                    lemma_place(before, j);
                }
                assert(entries_map(after) =~= entries_map(before).insert(name, value@));
            }
        },
        None => {
            entries.push(Entry { key, value });
            proof {
                let after = entries@;
                let n = before.len() as int;
                assert(distinct_keys(after)) by {
                    assert forall|a: int, b: int| 0 <= a < b < after.len() implies after[a].key@
                        != after[b].key@ by {
                        assert(after[a].key@ == before[a].key@);
                        if b < n {
                            assert(after[b].key@ == before[b].key@);
                        }
                    }
                }
                lemma_place(after, n);
                assert forall|k: Seq<char>| has_key(after, k) == (has_key(before, k) || k
                    == name) by {
                    if has_key(after, k) {
                        let j = place_of(after, k);
                        if j < n {
                            assert(before[j].key@ == k);
                        }
                    }
                    if has_key(before, k) {
                        let j = place_of(before, k);
                        assert(after[j].key@ == k);
                    }
                }
                assert forall|k: Seq<char>| has_key(after, k) implies entries_map(after)[k]
                    == entries_map(before).insert(name, value@)[k] by {
                    let j = place_of(after, k);
                    lemma_place(after, j);
                    if j < n {
                        lemma_place(before, j);
                    }
                }
                assert(entries_map(after) =~= entries_map(before).insert(name, value@));
            }
        },
    }
}


/// Takes out what is held under `name`.
fn take_out(entries: &mut Vec<Entry>, name: &String) -> (r: Option<Variant>)
    requires
        distinct_keys(old(entries)@),
    ensures
        distinct_keys(final(entries)@),
        entries_map(final(entries)@) == entries_map(old(entries)@).remove(name@),
        match r {
            Some(v) => entries_map(old(entries)@).contains_key(name@) && v@ == entries_map(
                old(entries)@,
            )[name@],
            None => !entries_map(old(entries)@).contains_key(name@),
        },
{
    let ghost before = entries@;
    match find(entries, name) {
        Some(i) => {
            let entry = entries.remove(i);
            proof {
                let after = entries@;
                lemma_place(before, i as int);
                assert forall|a: int| 0 <= a < after.len() implies after[a] == before[if a
                    < i {
                    a
                } else {
                    a + 1
                }] by {}
                assert(distinct_keys(after)) by {
                    assert forall|a: int, b: int| 0 <= a < b < after.len() implies after[a].key@
                        != after[b].key@ by {
                        let a0 = if a < i { a } else { a + 1 };
                        let b0 = if b < i { b } else { b + 1 };
                        assert(after[a] == before[a0]);
                        assert(after[b] == before[b0]);
                        assert(before[a0].key@ != before[b0].key@);
                    }
                }
                assert forall|k: Seq<char>| has_key(after, k) == (has_key(before, k) && k
                    != name@) by {
                    if has_key(after, k) {
                        let j = place_of(after, k);
                        let j0 = if j < i { j } else { j + 1 };
                        assert(after[j] == before[j0]);
                        assert(before[j0].key@ == k);
                        if j0 < i {
                            assert(before[j0].key@ != before[i as int].key@);
                        } else {
                            assert(before[i as int].key@ != before[j0].key@);
                        }
                    }
                    if has_key(before, k) && k != name@ {
                        let j0 = place_of(before, k);
                        let j = if j0 < i { j0 } else { j0 - 1 };
                        assert(after[j] == before[j0]);
                        assert(after[j].key@ == k);
                    }
                }
                assert forall|k: Seq<char>| has_key(after, k) implies entries_map(after)[k]
                    == entries_map(before)[k] by {
                    let j = place_of(after, k);
                    let j0 = if j < i { j } else { j + 1 };
                    assert(after[j] == before[j0]);
                    lemma_place(after, j);
                    lemma_place(before, j0);
                }
                assert(entries_map(after) =~= entries_map(before).remove(name@));
            }
            Some(entry.value)
        },
        None => {
            proof {
                assert(entries_map(before) =~= entries_map(before).remove(name@));
            }
            None
        },
    }
}


/// A mapping from names to values, each name held once.
pub struct Store {
    entries: Vec<Entry>,
}

impl View for Store {
    type V = Map<Seq<char>, Value>;

    closed spec fn view(&self) -> Map<Seq<char>, Value> {
        entries_map(self.entries@)
    }
}

impl Store {
    #[verifier::type_invariant]
    spec fn well_formed(self) -> bool {
        distinct_keys(self.entries@)
    }

    /// The empty store.
    pub fn new() -> (s: Self)
        ensures
            s@ == Map::<Seq<char>, Value>::empty(),
    {
        let s = Store { entries: Vec::new() };
        proof {
            assert(s@ =~= Map::<Seq<char>, Value>::empty());
        }
        s
    }

    /// The number of names held.
    pub fn len(&self) -> (n: usize)
        ensures
            n == self@.dom().len(),
            self@.dom().finite(),
    {
        proof {
            use_type_invariant(self);
            lemma_entries_len(self.entries@);
        }
        self.entries.len()
    }

    /// Stores `value` under `name`, in place of what was there.
    pub fn add(&mut self, name: &str, value: Variant)
        ensures
            final(self)@ == old(self)@.insert(name@, value@),
    {
        proof {
            use_type_invariant(&*self);
        }
        // The entries are taken out while they change: what the store holds
        // has distinct keys at every point.
        let mut entries: Vec<Entry> = Vec::new();
        core::mem::swap(&mut entries, &mut self.entries);
        put(&mut entries, String::from_str(name), value);
        core::mem::swap(&mut entries, &mut self.entries);
    }

    /// Takes out what is stored under `name` and returns it; `None`, and no
    /// change, where nothing is.
    pub fn remove(&mut self, name: &str) -> (r: Option<Variant>)
        ensures
            final(self)@ == old(self)@.remove(name@),
            match r {
                Some(v) => old(self)@.contains_key(name@) && v@ == old(self)@[name@],
                None => !old(self)@.contains_key(name@),
            },
    {
        proof {
            use_type_invariant(&*self);
        }
        let key = String::from_str(name);
        let mut entries: Vec<Entry> = Vec::new();
        core::mem::swap(&mut entries, &mut self.entries);
        let r = take_out(&mut entries, &key);
        core::mem::swap(&mut entries, &mut self.entries);
        r
    }

    /// A copy of what is stored under `name`; `None` where nothing is.
    pub fn get(&self, name: &str) -> (r: Option<Variant>)
        ensures
            match r {
                Some(v) => self@.contains_key(name@) && v@ == self@[name@],
                None => !self@.contains_key(name@),
            },
    {
        proof {
            use_type_invariant(self);
        }
        let key = String::from_str(name);
        match find(&self.entries, &key) {
            Some(i) => {
                proof {
                    lemma_place(self.entries@, i as int);
                }
                Some(self.entries[i].value.clone())
            },
            None => None,
        }
    }
}

/// A store holds as many names as it has entries.
proof fn lemma_entries_len(es: Seq<Entry>)
    requires
        distinct_keys(es),
    ensures
        entries_map(es).dom().finite(),
        entries_map(es).dom().len() == es.len(),
    decreases es.len(),
{
    if es.len() == 0 {
        assert(entries_map(es).dom() =~= Set::<Seq<char>>::empty());
    } else {
        let init = es.drop_last();
        let last = es.last();
        assert(distinct_keys(init)) by {
            assert forall|a: int, b: int| 0 <= a < b < init.len() implies init[a].key@
                != init[b].key@ by {
                assert(init[a] == es[a]);
                assert(init[b] == es[b]);
            }
        }
        lemma_entries_len(init);
        assert(!has_key(init, last.key@)) by {
            if has_key(init, last.key@) {
                let j = place_of(init, last.key@);
                assert(init[j] == es[j]);
                assert(es[j].key@ != es[es.len() - 1].key@);
            }
        }
        assert(entries_map(es).dom() =~= entries_map(init).dom().insert(last.key@)) by {
            assert forall|k: Seq<char>| has_key(es, k) == (has_key(init, k) || k
                == last.key@) by {
                if has_key(es, k) {
                    let j = place_of(es, k);
                    if j < init.len() {
                        assert(init[j].key@ == k);
                    }
                }
                if has_key(init, k) {
                    let j = place_of(init, k);
                    assert(init[j] == es[j]);
                    assert(es[j].key@ == k);
                }
                if k == last.key@ {
                    assert(es[es.len() - 1].key@ == k);
                }
            }
        }
    }
}

} // verus!
