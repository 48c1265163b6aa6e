//! Small maps keyed by name, held as vectors of entries whose names are all
//! different: the schema's scopes, classes and fields.
use vstd::prelude::*;

verus! {

/// No two entries carry the same name.
pub open spec fn distinct_names<V>(entries: Seq<(String, V)>) -> bool {
    forall|i: int, j: int|
        0 <= i < entries.len() && 0 <= j < entries.len() && i != j ==> #[trigger] entries[i].0@
            != #[trigger] entries[j].0@
}

/// Some entry is named `key`.
pub open spec fn has_name<V>(entries: Seq<(String, V)>, key: Seq<char>) -> bool {
    exists|i: int| 0 <= i < entries.len() && #[trigger] entries[i].0@ == key
}

/// The value of the entry named `key`, where there is one.
pub open spec fn lookup<V>(entries: Seq<(String, V)>, key: Seq<char>) -> Option<V> {
    if has_name(entries, key) {
        Some(entries[choose|i: int| 0 <= i < entries.len() && #[trigger] entries[i].0@ == key].1)
    } else {
        None
    }
}

/// The entries as a map from names to values.
pub open spec fn name_map<V>(entries: Seq<(String, V)>) -> Map<Seq<char>, V> {
    Map::new(|key: Seq<char>| has_name(entries, key), |key: Seq<char>| lookup(entries, key)->0)
}

/// With distinct names, the entry at `i` is what its name looks up.
pub proof fn lemma_lookup_at<V>(entries: Seq<(String, V)>, i: int)
    requires
        distinct_names(entries),
        0 <= i < entries.len(),
    ensures
        lookup(entries, entries[i].0@) == Some(entries[i].1),
{
    let key = entries[i].0@;
    assert(has_name(entries, key));
    let k = choose|k: int| 0 <= k < entries.len() && #[trigger] entries[k].0@ == key;
    if k != i {
        assert(entries[k].0@ != entries[i].0@);
    }
}

/// The position of the entry named `key`.
pub fn find_name<V>(entries: &Vec<(String, V)>, key: &str) -> (r: Option<usize>)
    requires
        distinct_names(entries@),
    ensures
        match r {
            Some(i) => i < entries@.len() && entries@[i as int].0@ == key@ && lookup(entries@, key@)
                == Some(entries@[i as int].1),
            None => !has_name(entries@, key@) && lookup(entries@, key@) is None,
        },
{
    let wanted = key.to_owned();
    let mut i: usize = 0;
    while i < entries.len()
        invariant
            i <= entries@.len(),
            distinct_names(entries@),
            wanted@ == key@,
            forall|j: int| 0 <= j < i ==> #[trigger] entries@[j].0@ != key@,
        decreases entries.len() - i,
    {
        if entries[i].0 == wanted {
            proof {
                lemma_lookup_at(entries@, i as int);
            }
            return Some(i);
        }
        i = i + 1;
    }
    None
}

/// Sets the value of the entry named `key`, adding the entry where there is
/// none, as a map insertion does.
pub fn insert_name<V>(entries: &mut Vec<(String, V)>, key: String, value: V)
    requires
        distinct_names(old(entries)@),
    ensures
        distinct_names(final(entries)@),
        name_map(final(entries)@) == name_map(old(entries)@).insert(key@, value),
{
    let ghost before = entries@;
    match find_name(entries, key.as_str()) {
        Some(i) => {
            entries.set(i, (key, value));
            proof {
                let after = entries@;
                assert(after == before.update(i as int, (key, value)));
                assert forall|a: int, b: int|
                    0 <= a < after.len() && 0 <= b < after.len() && a != b implies #[trigger] after[a].0@
                    != #[trigger] after[b].0@ by {
                    if a != i && b != i {
                        assert(before[a].0@ != before[b].0@);
                    } else if a == i {
                        assert(before[i as int].0@ != before[b].0@);
                    } else {
                        assert(before[a].0@ != before[i as int].0@);
                    }
                }
                lemma_lookup_at(after, i as int);
                assert forall|k: Seq<char>| #[trigger] has_name(after, k) == (has_name(before, k)
                    || k == key@) by {
                    if has_name(before, k) {
                        let j = choose|j: int| 0 <= j < before.len() && #[trigger] before[j].0@ == k;
                        assert(after[j].0@ == k);
                    }
                    if has_name(after, k) {
                        let j = choose|j: int| 0 <= j < after.len() && #[trigger] after[j].0@ == k;
                        if j != i {
                            assert(before[j].0@ == k);
                        }
                    }
                }
                assert forall|k: Seq<char>| has_name(after, k) && k != key@ implies #[trigger] lookup(
                    after,
                    k,
                ) == lookup(before, k) by {
                    let j = choose|j: int| 0 <= j < after.len() && #[trigger] after[j].0@ == k;
                    assert(j != i);
                    lemma_lookup_at(after, j);
                    lemma_lookup_at(before, j);
                }
                assert(name_map(after) =~= name_map(before).insert(key@, value));
            }
        },
        None => {
            entries.push((key, value));
            proof {
                let after = entries@;
                let n = before.len() as int;
                assert forall|a: int, b: int|
                    0 <= a < after.len() && 0 <= b < after.len() && a != b implies #[trigger] after[a].0@
                    != #[trigger] after[b].0@ by {
                    if a < n && b < n {
                        assert(before[a].0@ != before[b].0@);
                    } else if a == n {
                        assert(before[b].0@ != key@);
                    } else {
                        assert(before[a].0@ != key@);
                    }
                }
                lemma_lookup_at(after, n);
                assert forall|k: Seq<char>| #[trigger] has_name(after, k) == (has_name(before, k)
                    || k == key@) by {
                    if has_name(before, k) {
                        let j = choose|j: int| 0 <= j < before.len() && #[trigger] before[j].0@ == k;
                        assert(after[j].0@ == k);
                    }
                    if has_name(after, k) {
                        let j = choose|j: int| 0 <= j < after.len() && #[trigger] after[j].0@ == k;
                        if j != n {
                            assert(before[j].0@ == k);
                        }
                    }
                }
                assert forall|k: Seq<char>| has_name(after, k) && k != key@ implies #[trigger] lookup(
                    after,
                    k,
                ) == lookup(before, k) by {
                    let j = choose|j: int| 0 <= j < after.len() && #[trigger] after[j].0@ == k;
                    assert(j != n);
                    lemma_lookup_at(after, j);
                    lemma_lookup_at(before, j);
                }
                assert(name_map(after) =~= name_map(before).insert(key@, value));
            }
        },
    }
}

} // verus!
