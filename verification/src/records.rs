//! The records of submitted inputs, and what it means for a list of them to
//! hold each contributor and each identifier once.

use vstd::prelude::*;
use crate::contract::Address;
use crate::zk_compute::ZKInput;

verus! {

/// A contributor's secret input as the job holds it.
#[derive(Clone, Copy)]
pub struct SecretInputRecord {
    pub variable_id: u32,
    pub owner: Address,
    pub input: ZKInput,
}

/// No two records have the same owner.
pub open spec fn distinct_owners(records: Seq<SecretInputRecord>) -> bool {
    forall|i: int, j: int|
        0 <= i < j < records.len() ==> (#[trigger] records[i]).owner != (
        #[trigger] records[j]).owner
}

/// No two records have the same identifier, and all lie below `bound`.
pub open spec fn distinct_ids(records: Seq<SecretInputRecord>, bound: u32) -> bool {
    &&& forall|i: int| 0 <= i < records.len() ==> (#[trigger] records[i]).variable_id < bound
    &&& forall|i: int, j: int|
        0 <= i < j < records.len() ==> (#[trigger] records[i]).variable_id != (
        #[trigger] records[j]).variable_id
}

/// Whether one of `records` belongs to `who`.
pub open spec fn owned_in(records: Seq<SecretInputRecord>, who: Address) -> bool {
    exists|i: int| 0 <= i < records.len() && (#[trigger] records[i]).owner == who
}

/// Whether one of `records` has the identifier `variable_id`.
pub open spec fn id_in(records: Seq<SecretInputRecord>, variable_id: u32) -> bool {
    exists|i: int| 0 <= i < records.len() && (#[trigger] records[i]).variable_id == variable_id
}

/// A record of `who` is in a concatenation exactly when it is in one part.
pub proof fn lemma_owned_in_concat(
    front: Seq<SecretInputRecord>,
    back: Seq<SecretInputRecord>,
    who: Address,
)
    ensures
        owned_in(front + back, who) == (owned_in(front, who) || owned_in(back, who)),
{
    let all = front + back;
    if owned_in(front, who) {
        let i = choose|i: int| 0 <= i < front.len() && (#[trigger] front[i]).owner == who;
        assert(all[i].owner == who);
    }
    if owned_in(back, who) {
        let i = choose|i: int| 0 <= i < back.len() && (#[trigger] back[i]).owner == who;
        assert(all[front.len() + i].owner == who);
    }
    if owned_in(all, who) {
        let i = choose|i: int| 0 <= i < all.len() && (#[trigger] all[i]).owner == who;
        if i < front.len() {
            assert(front[i].owner == who);
        } else {
            assert(back[i - front.len()].owner == who);
        }
    }
}

/// After a push, the owners are the former ones and the new record's.
pub proof fn lemma_owned_in_push(
    records: Seq<SecretInputRecord>,
    record: SecretInputRecord,
    who: Address,
)
    ensures
        owned_in(records.push(record), who) == (owned_in(records, who) || record.owner == who),
{
    assert(records.push(record) =~= records + seq![record]);
    lemma_owned_in_concat(records, seq![record], who);
    if record.owner == who {
        assert(seq![record][0].owner == who);
    }
}

/// Before a removal, the owners were the remaining ones and the removed
/// record's.
pub proof fn lemma_owned_in_remove(records: Seq<SecretInputRecord>, k: int, who: Address)
    requires
        0 <= k < records.len(),
    ensures
        owned_in(records, who) == (owned_in(records.remove(k), who) || records[k].owner == who),
{
    let front = records.subrange(0, k);
    let back = records.subrange(k + 1, records.len() as int);
    assert(records.remove(k) =~= front + back);
    assert(records =~= front.push(records[k]) + back);
    lemma_owned_in_concat(front, back, who);
    lemma_owned_in_concat(front.push(records[k]), back, who);
    lemma_owned_in_push(front, records[k], who);
}

/// Whether one of `records` belongs to `who`.
pub fn owns_record(records: &Vec<SecretInputRecord>, who: Address) -> (found: bool)
    ensures
        found == owned_in(records@, who),
{
    let mut i: usize = 0;
    while i < records.len()
        invariant
            i <= records.len(),
            forall|j: int| 0 <= j < i ==> (#[trigger] records@[j]).owner != who,
        decreases records.len() - i,
    {
        if records[i].owner == who {
            return true;
        }
        i += 1;
    }
    false
}

/// Whether one of `records` has the identifier `variable_id`.
pub fn holds_id(records: &Vec<SecretInputRecord>, variable_id: u32) -> (found: bool)
    ensures
        found == id_in(records@, variable_id),
{
    let mut i: usize = 0;
    while i < records.len()
        invariant
            i <= records.len(),
            forall|j: int| 0 <= j < i ==> (#[trigger] records@[j]).variable_id != variable_id,
        decreases records.len() - i,
    {
        if records[i].variable_id == variable_id {
            return true;
        }
        i += 1;
    }
    false
}

/// Position of the first record with the identifier `variable_id`.
pub fn position_of(records: &Vec<SecretInputRecord>, variable_id: u32) -> (k: usize)
    requires
        id_in(records@, variable_id),
    ensures
        k < records.len(),
        records@[k as int].variable_id == variable_id,
        forall|j: int| 0 <= j < k ==> (#[trigger] records@[j]).variable_id != variable_id,
{
    let mut i: usize = 0;
    while records[i].variable_id != variable_id
        invariant
            i < records.len(),
            id_in(records@, variable_id),
            forall|j: int| 0 <= j < i ==> (#[trigger] records@[j]).variable_id != variable_id,
        decreases records.len() - i,
    {
        i += 1;
    }
    i
}

} // verus!
