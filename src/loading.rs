use vstd::prelude::*;
use crate::models::Record;

verus! {

/// Largest number of records written by one insert statement.
pub const BATCH_LIMIT: usize = 1000;

/// Number of batches that `n` records are split into.
pub open spec fn batch_count(n: nat) -> nat {
    if n == 0 {
        0
    } else {
        ((n - 1) as nat / (BATCH_LIMIT as nat) + 1) as nat
    }
}

/// The `i`-th batch of `s`: the records from `i * BATCH_LIMIT` on, at most
/// `BATCH_LIMIT` of them.
pub open spec fn batch_of<T>(s: Seq<T>, i: int) -> Seq<T> {
    let lo = i * BATCH_LIMIT;
    let hi = lo + BATCH_LIMIT;
    s.subrange(lo, if hi < s.len() { hi } else { s.len() as int })
}

/// Splits `records` into consecutive batches of at most `BATCH_LIMIT` records,
/// keeping their order; all batches but the last are full, none is empty.
pub fn split_batches<T>(records: Vec<T>) -> (r: Vec<Vec<T>>)
    ensures
        r@.len() == batch_count(records@.len()),
        forall|i: int| 0 <= i < r@.len() ==> (#[trigger] r@[i])@ == batch_of(records@, i),
{
    let ghost all = records@;
    let mut rest = records;
    let mut batches: Vec<Vec<T>> = Vec::new();
    while rest.len() > BATCH_LIMIT
        invariant
            batches@.len() * BATCH_LIMIT <= all.len(),
            rest@ == all.subrange(batches@.len() * BATCH_LIMIT, all.len() as int),
            forall|i: int| 0 <= i < batches@.len() ==> (#[trigger] batches@[i])@ == batch_of(all, i),
        decreases rest@.len(),
    {
        let tail = rest.split_off(BATCH_LIMIT);
        let ghost k = batches@.len();
        assert(rest@ =~= batch_of(all, k as int));
        batches.push(rest);
        rest = tail;
        assert(rest@ =~= all.subrange(batches@.len() * BATCH_LIMIT, all.len() as int));
    }
    let ghost k = batches@.len();
    if rest.len() > 0 {
        assert(rest@ =~= batch_of(all, k as int));
        batches.push(rest);
        assert((all.len() - 1) as nat / (BATCH_LIMIT as nat) == k) by (nonlinear_arith)
            requires k * 1000 < all.len(), all.len() <= k * 1000 + 1000;
    } else {
        assert(all.len() == k * BATCH_LIMIT);
        assert(k == 0 || (all.len() - 1) as nat / (BATCH_LIMIT as nat) == (k - 1) as nat) by (nonlinear_arith)
            requires all.len() == k * 1000;
    }
    batches
}

/// Every batch is nonempty and holds at most `BATCH_LIMIT` records; one record
/// past the limit gives at least two batches.
pub proof fn lemma_batch_bounds<T>(s: Seq<T>)
    ensures
        forall|i: int| 0 <= i < batch_count(s.len()) ==> 0 < (#[trigger] batch_of(s, i)).len() <= BATCH_LIMIT,
        s.len() == BATCH_LIMIT + 1 ==> batch_count(s.len()) >= 2,
{
    assert forall|i: int| 0 <= i < batch_count(s.len()) implies 0 < (#[trigger] batch_of(s, i)).len() <= BATCH_LIMIT by {
        assert(i * 1000 < s.len()) by (nonlinear_arith)
            requires 0 <= i < (s.len() - 1) as nat / 1000 + 1, s.len() > 0;
    }
}

/// A table keyed by identifier after inserting `batch` with insert-or-ignore:
/// a record whose identifier is already present is skipped.
pub open spec fn insert_or_ignore<T: Record>(table: Map<Seq<char>, T>, batch: Seq<T>) -> Map<Seq<char>, T>
    decreases batch.len(),
{
    if batch.len() == 0 {
        table
    } else {
        let t = insert_or_ignore(table, batch.drop_last());
        if t.contains_key(batch.last().key()) {
            t
        } else {
            t.insert(batch.last().key(), batch.last())
        }
    }
}

/// The table after inserting each batch in turn.
pub open spec fn load_batches<T: Record>(table: Map<Seq<char>, T>, batches: Seq<Seq<T>>) -> Map<Seq<char>, T>
    decreases batches.len(),
{
    if batches.len() == 0 {
        table
    } else {
        insert_or_ignore(load_batches(table, batches.drop_last()), batches.last())
    }
}

/// The identifiers of the records of `s`.
pub open spec fn ids_of<T: Record>(s: Seq<T>) -> Set<Seq<char>> {
    Set::new(|k: Seq<char>| exists|i: int| 0 <= i < s.len() && s[i].key() == k)
}

proof fn lemma_insert_keeps<T: Record>(table: Map<Seq<char>, T>, batch: Seq<T>)
    ensures
        insert_or_ignore(table, batch).dom() == table.dom() + ids_of(batch),
        forall|k: Seq<char>| #[trigger] table.contains_key(k) ==> insert_or_ignore(table, batch)[k] == table[k],
    decreases batch.len(),
{
    if batch.len() > 0 {
        let front = batch.drop_last();
        lemma_insert_keeps(table, front);
        assert(ids_of(batch) =~= ids_of(front).insert(batch.last().key())) by {
            assert forall|k: Seq<char>| ids_of(front).contains(k) implies ids_of(batch).contains(k) by {
                let i = choose|i: int| 0 <= i < front.len() && front[i].key() == k;
                assert(batch[i] == front[i]);
            }
            assert forall|k: Seq<char>| ids_of(batch).contains(k) && k != batch.last().key()
                implies ids_of(front).contains(k) by {
                let i = choose|i: int| 0 <= i < batch.len() && batch[i].key() == k;
                assert(front[i] == batch[i]);
            }
            assert(ids_of(batch).contains(batch.last().key()));
        }
        assert(insert_or_ignore(table, batch).dom() =~= table.dom() + ids_of(batch));
    }
}

proof fn lemma_insert_present<T: Record>(table: Map<Seq<char>, T>, batch: Seq<T>)
    requires
        forall|i: int| 0 <= i < batch.len() ==> table.contains_key(#[trigger] batch[i].key()),
    ensures
        insert_or_ignore(table, batch) == table,
    decreases batch.len(),
{
    if batch.len() > 0 {
        let front = batch.drop_last();
        assert forall|i: int| 0 <= i < front.len() implies table.contains_key(#[trigger] front[i].key()) by {
            assert(front[i] == batch[i]);
        }
        lemma_insert_present(table, front);
        assert(table.contains_key(batch[batch.len() - 1].key()));
    }
}

proof fn lemma_insert_concat<T: Record>(table: Map<Seq<char>, T>, a: Seq<T>, b: Seq<T>)
    ensures
        insert_or_ignore(table, a + b) == insert_or_ignore(insert_or_ignore(table, a), b),
    decreases b.len(),
{
    if b.len() == 0 {
        assert(a + b =~= a);
    } else {
        assert((a + b).drop_last() =~= a + b.drop_last());
        lemma_insert_concat(table, a, b.drop_last());
    }
}

/// Loading the same records twice leaves the table as loading them once did.
pub proof fn lemma_load_idempotent<T: Record>(table: Map<Seq<char>, T>, records: Seq<T>)
    ensures
        insert_or_ignore(insert_or_ignore(table, records), records) == insert_or_ignore(table, records),
{
    let once = insert_or_ignore(table, records);
    lemma_insert_keeps(table, records);
    assert forall|i: int| 0 <= i < records.len() implies once.contains_key(#[trigger] records[i].key()) by {
        assert(ids_of(records).contains(records[i].key()));
    }
    lemma_insert_present(once, records);
}

/// Loading two record sets, overlapping or not, stores one entry per identifier
/// of the table or of either set, and never replaces an entry already stored.
pub proof fn lemma_load_union<T: Record>(table: Map<Seq<char>, T>, a: Seq<T>, b: Seq<T>)
    ensures
        insert_or_ignore(insert_or_ignore(table, a), b).dom() == table.dom() + ids_of(a) + ids_of(b),
        forall|k: Seq<char>| #[trigger] table.contains_key(k) ==> insert_or_ignore(insert_or_ignore(table, a), b)[k]
            == table[k],
        forall|k: Seq<char>| #[trigger] insert_or_ignore(table, a).contains_key(k) ==> insert_or_ignore(
            insert_or_ignore(table, a),
            b,
        )[k] == insert_or_ignore(table, a)[k],
{
    lemma_insert_keeps(table, a);
    let once = insert_or_ignore(table, a);
    lemma_insert_keeps(once, b);
    assert forall|k: Seq<char>| #[trigger] table.contains_key(k) implies insert_or_ignore(once, b)[k] == table[k] by {
        assert(once.dom().contains(k));
    }
}

/// Inserting the batches of `split_batches` one after another gives the table
/// that inserting all the records at once gives.
pub proof fn lemma_batched_load<T: Record>(table: Map<Seq<char>, T>, records: Seq<T>)
    ensures
        load_batches(table, Seq::new(batch_count(records.len()), |i: int| batch_of(records, i)))
            == insert_or_ignore(table, records),
{
    let n = batch_count(records.len());
    let all = Seq::new(n, |i: int| batch_of(records, i));
    lemma_batched_prefix(table, records, n as int);
    assert(all.take(n as int) =~= all);
    assert(n * 1000 >= records.len()) by (nonlinear_arith)
        requires n == (if records.len() == 0 { 0 } else { (records.len() - 1) as nat / 1000 + 1 });
    assert(records.take(records.len() as int) =~= records);
}

proof fn lemma_batched_prefix<T: Record>(table: Map<Seq<char>, T>, records: Seq<T>, k: int)
    requires
        0 <= k <= batch_count(records.len()),
    ensures
        load_batches(table, Seq::new(batch_count(records.len()), |i: int| batch_of(records, i)).take(k))
            == insert_or_ignore(
            table,
            records.take(if k * BATCH_LIMIT < records.len() { k * BATCH_LIMIT } else { records.len() as int }),
        ),
    decreases k,
{
    let all = Seq::new(batch_count(records.len()), |i: int| batch_of(records, i));
    if k == 0 {
        assert(records.take(0) =~= Seq::<T>::empty());
    } else {
        lemma_batched_prefix(table, records, k - 1);
        assert(all.take(k).drop_last() =~= all.take(k - 1));
        assert((k - 1) * 1000 < records.len()) by (nonlinear_arith)
            requires 0 < k <= (records.len() - 1) as nat / 1000 + 1, records.len() > 0;
        let lo = (k - 1) * BATCH_LIMIT;
        let hi = if k * BATCH_LIMIT < records.len() { k * BATCH_LIMIT } else { records.len() as int };
        assert(records.take(hi) =~= records.take(lo) + batch_of(records, k - 1));
        lemma_insert_concat(table, records.take(lo), batch_of(records, k - 1));
    }
}

} // verus!
