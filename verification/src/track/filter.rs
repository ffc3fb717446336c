//! Which of the conditions of a tracking run are worth fuzzing.
use vstd::prelude::*;
use std::collections::HashSet;
use crate::cond_stmt::{views, CondStmt, CondView};
use crate::defs::COND_LEN_OP;
use crate::depot::queue::{cond_key, key_of, lemma_key_injective};

verus! {

broadcast use vstd::std_specs::hash::group_hash_axioms;

/// The condition can be worked on: some input byte taints it, and it is
/// no condition on the input's length.
pub open spec fn is_useful(cond: CondView) -> bool {
    cond.offsets.len() > 0 && cond.base.op != COND_LEN_OP
}

/// Some condition of the list is the one that `key` files.
pub open spec fn has_key(conds: Seq<CondView>, key: u128) -> bool {
    exists|i: int| 0 <= i < conds.len() && key_of((#[trigger] conds[i]).base.identity()) == key
}

/// The conditions that are kept: each useful one, unless the same
/// condition was kept before it.
pub open spec fn filtered(conds: Seq<CondView>) -> Seq<CondView>
    decreases conds.len(),
{
    if conds.len() == 0 {
        Seq::empty()
    } else {
        let kept = filtered(conds.drop_last());
        if is_useful(conds.last()) && !has_key(kept, key_of(conds.last().base.identity())) {
            kept.push(conds.last())
        } else {
            kept
        }
    }
}

/// Every condition that is kept is useful and came in the list, and no
/// two that are kept are the same condition.
pub proof fn lemma_filtered(conds: Seq<CondView>)
    ensures
        forall|i: int|
            0 <= i < filtered(conds).len() ==> is_useful(#[trigger] filtered(conds)[i])
                && conds.contains(filtered(conds)[i]),
        forall|i: int, j: int|
            0 <= i < j < filtered(conds).len() ==> (#[trigger] filtered(conds)[i]).base.identity()
                != (#[trigger] filtered(conds)[j]).base.identity(),
        filtered(conds).len() <= conds.len(),
    decreases conds.len(),
{
    if conds.len() > 0 {
        let rest = conds.drop_last();
        lemma_filtered(rest);
        let kept = filtered(rest);
        assert forall|i: int| 0 <= i < filtered(conds).len() implies is_useful(
            #[trigger] filtered(conds)[i],
        ) && conds.contains(filtered(conds)[i]) by {
            if i < kept.len() {
                assert(rest.contains(kept[i]));
                let k = choose|k: int| 0 <= k < rest.len() && rest[k] == kept[i];
                assert(conds[k] == kept[i]);
            } else {
                assert(conds[conds.len() - 1] == conds.last());
            }
        }
        assert forall|i: int, j: int| 0 <= i < j < filtered(conds).len() implies (
        #[trigger] filtered(conds)[i]).base.identity() != (
        #[trigger] filtered(conds)[j]).base.identity() by {
            if j == kept.len() {
                lemma_key_injective(kept[i].base.identity(), conds.last().base.identity());
            }
        }
    }
}

/// Keeps the conditions that are worth fuzzing, each once, in their order.
pub fn filter_cond_list(cond_list: &mut Vec<CondStmt>)
    ensures
        views(final(cond_list)@) == filtered(views(old(cond_list)@)),
{
    let mut kept: Vec<CondStmt> = Vec::new();
    let mut seen: HashSet<u128> = HashSet::new();
    let mut i: usize = 0;
    proof {
        assert(views(kept@) =~= filtered(views(cond_list@.take(0))));
    }
    while i < cond_list.len()
        invariant
            i <= cond_list.len(),
            cond_list@ == old(cond_list)@,
            views(kept@) == filtered(views(cond_list@.take(i as int))),
            forall|key: u128| seen@.contains(key) == has_key(views(kept@), key),
        decreases cond_list.len() - i,
    {
        let cond = &cond_list[i];
        let key = cond_key(&cond.base);
        proof {
            let next = views(cond_list@.take(i + 1));
            assert(next.drop_last() =~= views(cond_list@.take(i as int)));
            assert(next.last() == cond_list@[i as int]@);
        }
        if cond.is_tainted() && cond.base.op != COND_LEN_OP && !seen.contains(&key) {
            let ghost before = views(kept@);
            let _ = seen.insert(key);
            kept.push(cond.clone());
            proof {
                let after = views(kept@);
                assert(after =~= before.push(cond@));
                assert forall|k: u128| seen@.contains(k) == has_key(after, k) by {
                    if has_key(before, k) {
                        let j = choose|j: int|
                            0 <= j < before.len() && key_of(
                                (#[trigger] before[j]).base.identity(),
                            ) == k;
                        assert(after[j] == before[j]);
                    }
                    if k == key {
                        assert(key_of(after[before.len() as int].base.identity()) == k);
                    }
                    if has_key(after, k) && k != key {
                        let j = choose|j: int|
                            0 <= j < after.len() && key_of((#[trigger] after[j]).base.identity())
                                == k;
                        assert(before[j] == after[j]);
                    }
                }
            }
        }
        i = i + 1;
    }
    proof {
        assert(cond_list@.take(i as int) =~= cond_list@);
    }
    *cond_list = kept;
}

} // verus!
