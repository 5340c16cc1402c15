use vstd::prelude::*;
use crate::models::Record;

verus! {

/// Each record of `records` carrying `chain` as its chain tag.
pub open spec fn tag_all<T: Record>(records: Seq<T>, chain: String) -> Seq<T> {
    records.map_values(|r: T| r.with_chain(Some(chain)))
}

/// Stamps every record with the chain identifier of the current run.
pub fn add_chain_id<T: Record>(records: &Vec<T>, chain_id: &String) -> (r: Vec<T>)
    ensures
        r@ == tag_all(records@, *chain_id),
{
    let mut out: Vec<T> = Vec::new();
    let n = records.len();
    let mut i: usize = 0;
    while i < n
        invariant
            n == records@.len(),
            i <= n,
            out@ == tag_all(records@, *chain_id).take(i as int),
        decreases n - i,
    {
        out.push(records[i].tagged(chain_id));
        i = i + 1;
        assert(out@ =~= tag_all(records@, *chain_id).take(i as int));
    }
    assert(out@ =~= tag_all(records@, *chain_id));
    out
}

/// After tagging with `chain`, every record carries exactly `chain` as its tag,
/// and its identifier and every other field are those of the input record.
pub proof fn lemma_tagging_complete<T: Record>(records: Seq<T>, chain: String)
    ensures
        tag_all(records, chain).len() == records.len(),
        forall|i: int| 0 <= i < records.len() ==> (#[trigger] tag_all(records, chain)[i]).chain() == Some(chain),
        forall|i: int| 0 <= i < records.len() ==> (#[trigger] tag_all(records, chain)[i]).key() == records[i].key(),
        forall|i: int| 0 <= i < records.len() ==> (#[trigger] tag_all(records, chain)[i]).with_chain(None)
            == records[i].with_chain(None),
{
    assert forall|i: int| 0 <= i < records.len() implies {
        &&& (#[trigger] tag_all(records, chain)[i]).chain() == Some(chain)
        &&& tag_all(records, chain)[i].key() == records[i].key()
        &&& tag_all(records, chain)[i].with_chain(None) == records[i].with_chain(None)
    } by {
        records[i].lemma_with_chain(Some(chain), None);
    }
}

} // verus!
