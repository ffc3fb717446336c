//! The keys of the hashed tables, as lists that can be walked.
use vstd::prelude::*;
use vstd::std_specs::iter::IteratorSpec;
use std::collections::HashMap;
use std::collections::HashSet;

verus! {

broadcast use vstd::std_specs::hash::group_hash_axioms;

/// The keys of a table of paths, each once.
pub fn path_keys<V>(m: &HashMap<u64, V>) -> (keys: Vec<u64>)
    ensures
        keys@.to_set() == m@.dom(),
        keys@.no_duplicates(),
{
    let mut keys: Vec<u64> = Vec::new();
    let ghost all = vstd::std_specs::hash::spec_keys_iter(m).remaining();
    for key in it: m.keys()
        invariant
            it.seq() == all,
            keys@ == all.unref().take(it.index() as int),
    {
        keys.push(*key);
    }
    proof {
        assert(keys@ =~= all.unref());
        assert forall|i: int, j: int|
            0 <= i < keys@.len() && 0 <= j < keys@.len() && i != j implies keys@[i] != keys@[j] by {
            assert(all[i] != all[j]);
        }
    }
    keys
}

/// The keys of a table of conditions, each once.
pub fn cond_keys<V>(m: &HashMap<u128, V>) -> (keys: Vec<u128>)
    ensures
        keys@.to_set() == m@.dom(),
        keys@.no_duplicates(),
{
    let mut keys: Vec<u128> = Vec::new();
    let ghost all = vstd::std_specs::hash::spec_keys_iter(m).remaining();
    for key in it: m.keys()
        invariant
            it.seq() == all,
            keys@ == all.unref().take(it.index() as int),
    {
        keys.push(*key);
    }
    proof {
        assert(keys@ =~= all.unref());
        assert forall|i: int, j: int|
            0 <= i < keys@.len() && 0 <= j < keys@.len() && i != j implies keys@[i] != keys@[j] by {
            assert(all[i] != all[j]);
        }
    }
    keys
}

/// The members of a set of paths, each once.
pub fn path_members(s: &HashSet<u64>) -> (members: Vec<u64>)
    ensures
        members@.to_set() == s@,
        members@.no_duplicates(),
{
    let mut members: Vec<u64> = Vec::new();
    let ghost all = vstd::std_specs::hash::spec_hash_keys_iter(s).remaining();
    for key in it: s.iter()
        invariant
            it.seq() == all,
            members@ == all.unref().take(it.index() as int),
    {
        members.push(*key);
    }
    proof {
        assert(members@ =~= all.unref());
        assert forall|i: int, j: int|
            0 <= i < members@.len() && 0 <= j < members@.len() && i != j implies members@[i]
            != members@[j] by {
            assert(all[i] != all[j]);
        }
    }
    members
}

} // verus!
