use vstd::prelude::*;
use crate::models::Record;

verus! {

/// Number of records asked of the provider per page.
pub const PAGE_SIZE: usize = 1000;

/// Strict lexicographic order on identifiers, as the provider compares them.
pub open spec fn id_lt(a: Seq<char>, b: Seq<char>) -> bool
    decreases a.len(),
{
    if b.len() == 0 {
        false
    } else if a.len() == 0 {
        true
    } else if a[0] != b[0] {
        (a[0] as u32) < (b[0] as u32)
    } else {
        id_lt(a.drop_first(), b.drop_first())
    }
}

/// The records are strictly ascending by identifier (hence unique).
pub open spec fn ascending<T: Record>(s: Seq<T>) -> bool {
    forall|i: int, j: int| 0 <= i < j < s.len() ==> id_lt(#[trigger] s[i].key(), #[trigger] s[j].key())
}

/// Every record of `db` whose identifier is strictly greater than `cursor`, in order.
pub open spec fn records_after<T: Record>(db: Seq<T>, cursor: Seq<char>) -> Seq<T>
    decreases db.len(),
{
    if db.len() == 0 {
        Seq::empty()
    } else if id_lt(cursor, db[0].key()) {
        seq![db[0]] + records_after(db.drop_first(), cursor)
    } else {
        records_after(db.drop_first(), cursor)
    }
}

/// What a provider holding `db` answers to a page request after `cursor`.
pub open spec fn provider_page<T: Record>(db: Seq<T>, cursor: Seq<char>) -> Seq<T> {
    let after = records_after(db, cursor);
    if after.len() <= PAGE_SIZE {
        after
    } else {
        after.take(PAGE_SIZE as int)
    }
}

/// The state of one paginated traversal.
pub ghost struct PagerView<T> {
    pub records: Seq<T>,
    pub cursor: Seq<char>,
    pub finished: bool,
    pub requests: nat,
}

pub open spec fn pager_start<T>() -> PagerView<T> {
    PagerView { records: Seq::empty(), cursor: Seq::empty(), finished: false, requests: 0 }
}

/// The traversal after receiving `page`: the page is appended; a short page ends
/// it, a full one moves the cursor to the page's last identifier.
pub open spec fn pager_step<T: Record>(v: PagerView<T>, page: Seq<T>) -> PagerView<T> {
    PagerView {
        records: v.records + page,
        cursor: if page.len() < PAGE_SIZE { v.cursor } else { page.last().key() },
        finished: page.len() < PAGE_SIZE,
        requests: v.requests + 1,
    }
}

/// A traversal driven by a provider holding `db`, for at most `fuel` requests.
pub open spec fn pager_run<T: Record>(db: Seq<T>, v: PagerView<T>, fuel: nat) -> PagerView<T>
    decreases fuel,
{
    if fuel == 0 || v.finished {
        v
    } else {
        pager_run(db, pager_step(v, provider_page(db, v.cursor)), (fuel - 1) as nat)
    }
}

/// Cursor-based traversal of a paginated provider: the caller asks the provider
/// for the page after `next_cursor()` and hands it to `accept_page`, until the
/// traversal is finished.
pub struct Pager<T> {
    records: Vec<T>,
    cursor: String,
    finished: bool,
    requests: usize,
}

impl<T: Record> Pager<T> {
    pub closed spec fn view(&self) -> PagerView<T> {
        PagerView {
            records: self.records@,
            cursor: self.cursor@,
            finished: self.finished,
            requests: self.requests as nat,
        }
    }

    /// Until the traversal ends, every page so far was full.
    pub closed spec fn wf(&self) -> bool {
        self.finished || self.requests * PAGE_SIZE <= self.records@.len()
    }

    pub fn new() -> (r: Self)
        ensures
            r.view() == pager_start::<T>(),
            r.wf(),
    {
        Pager { records: Vec::new(), cursor: String::new(), finished: false, requests: 0 }
    }

    /// The cursor of the next page to request, or `None` once the traversal ended.
    pub fn next_cursor(&self) -> (r: Option<&String>)
        ensures
            r.is_some() == !self.view().finished,
            r.is_some() ==> r.unwrap()@ == self.view().cursor,
    {
        if self.finished {
            None
        } else {
            Some(&self.cursor)
        }
    }

    pub fn is_finished(&self) -> (r: bool)
        ensures
            r == self.view().finished,
    {
        self.finished
    }

    /// Number of pages received so far.
    pub fn requests(&self) -> (r: usize)
        ensures
            r == self.view().requests,
    {
        self.requests
    }

    /// Takes the provider's answer to the request for `next_cursor()`.
    pub fn accept_page(&mut self, page: Vec<T>)
        requires
            old(self).wf(),
            !old(self).view().finished,
        ensures
            final(self).wf(),
            final(self).view() == pager_step(old(self).view(), page@),
    {
        let mut page = page;
        let n = page.len();
        let m = self.records.len();
        assert(self.requests * PAGE_SIZE <= m);
        if n < PAGE_SIZE {
            self.finished = true;
        } else {
            self.cursor = page[n - 1].id().clone();
        }
        self.records.append(&mut page);
        self.requests = self.requests + 1;
    }

    /// Every record received, in the order received.
    pub fn into_records(self) -> (r: Vec<T>)
        ensures
            r@ == self.view().records,
    {
        self.records
    }
}

proof fn lemma_id_lt_irreflexive(a: Seq<char>)
    ensures
        !id_lt(a, a),
    decreases a.len(),
{
    if a.len() > 0 {
        lemma_id_lt_irreflexive(a.drop_first());
    }
}

proof fn lemma_id_lt_asymmetric(a: Seq<char>, b: Seq<char>)
    ensures
        id_lt(a, b) ==> !id_lt(b, a),
    decreases a.len(),
{
    if a.len() > 0 && b.len() > 0 && a[0] == b[0] {
        lemma_id_lt_asymmetric(a.drop_first(), b.drop_first());
    }
}

/// `cursor` lies between the first `k` records of `db` and the rest.
pub open spec fn cursor_splits<T: Record>(db: Seq<T>, cursor: Seq<char>, k: int) -> bool {
    &&& 0 <= k <= db.len()
    &&& forall|i: int| 0 <= i < k ==> !id_lt(cursor, #[trigger] db[i].key())
    &&& forall|i: int| k <= i < db.len() ==> id_lt(cursor, #[trigger] db[i].key())
}

proof fn lemma_records_after_suffix<T: Record>(db: Seq<T>, cursor: Seq<char>, k: int)
    requires
        cursor_splits(db, cursor, k),
    ensures
        records_after(db, cursor) == db.subrange(k, db.len() as int),
    decreases db.len(),
{
    if db.len() > 0 {
        let rest = db.drop_first();
        if k > 0 {
            assert forall|i: int| 0 <= i < k - 1 implies !id_lt(cursor, #[trigger] rest[i].key()) by {
                assert(rest[i] == db[i + 1]);
            }
            assert forall|i: int| k - 1 <= i < rest.len() implies id_lt(cursor, #[trigger] rest[i].key()) by {
                assert(rest[i] == db[i + 1]);
            }
            lemma_records_after_suffix(rest, cursor, k - 1);
            assert(rest.subrange(k - 1, rest.len() as int) =~= db.subrange(k, db.len() as int));
        } else {
            assert forall|i: int| 0 <= i < rest.len() implies id_lt(cursor, #[trigger] rest[i].key()) by {
                assert(rest[i] == db[i + 1]);
            }
            lemma_records_after_suffix(rest, cursor, 0);
            assert(seq![db[0]] + rest.subrange(0, rest.len() as int) =~= db.subrange(0, db.len() as int));
        }
    }
}

proof fn lemma_drain_from<T: Record>(db: Seq<T>, v: PagerView<T>, k: int, fuel: nat)
    requires
        ascending(db),
        cursor_splits(db, v.cursor, k),
        v.records == db.take(k),
        !v.finished,
        v.requests * PAGE_SIZE == k,
        fuel >= (db.len() - k) / (PAGE_SIZE as int) + 1,
    ensures
        pager_run(db, v, fuel).finished,
        pager_run(db, v, fuel).records == db,
        pager_run(db, v, fuel).requests == db.len() / (PAGE_SIZE as nat) + 1,
    decreases db.len() - k,
{
    let n = db.len() as int;
    let p = PAGE_SIZE as int;
    lemma_records_after_suffix(db, v.cursor, k);
    let page = provider_page(db, v.cursor);
    let next = pager_step(v, page);
    assert(pager_run(db, v, fuel) == pager_run(db, next, (fuel - 1) as nat));
    if n - k < p {
        assert(page == db.subrange(k, n));
        assert(next.records =~= db);
        assert(n / p == k / p) by (nonlinear_arith)
            requires k == v.requests * p, 0 <= n - k < p, p == 1000, 0 <= k;
        assert(k / p == v.requests) by (nonlinear_arith)
            requires k == v.requests * p, p == 1000;
    } else {
        assert(page =~= db.subrange(k, k + p));
        assert(next.records =~= db.take(k + p));
        let c = next.cursor;
        assert(c == db[k + p - 1].key());
        assert forall|i: int| 0 <= i < k + p implies !id_lt(c, #[trigger] db[i].key()) by {
            if i < k + p - 1 {
                lemma_id_lt_asymmetric(db[i].key(), c);
            } else {
                lemma_id_lt_irreflexive(c);
            }
        }
        assert forall|i: int| k + p <= i < n implies id_lt(c, #[trigger] db[i].key()) by {
            assert(id_lt(db[k + p - 1].key(), db[i].key()));
        }
        assert((n - k) / p == (n - (k + p)) / p + 1) by (nonlinear_arith)
            requires n - k >= p, p == 1000;
        lemma_drain_from(db, next, k + p, (fuel - 1) as nat);
    }
}

/// A traversal of a provider holding `db` (strictly ascending identifiers, none
/// of them empty) returns every record of `db`, in order, after `N / P + 1` page
/// requests, where `N` is the number of records and `P` the page size; when `P`
/// does not divide `N`, that is `ceil(N / P)` requests.
pub proof fn lemma_pagination_exhaustive<T: Record>(db: Seq<T>)
    requires
        ascending(db),
        forall|i: int| 0 <= i < db.len() ==> (#[trigger] db[i].key()).len() > 0,
    ensures
        pager_run(db, pager_start(), db.len() / (PAGE_SIZE as nat) + 1).finished,
        pager_run(db, pager_start(), db.len() / (PAGE_SIZE as nat) + 1).records == db,
        pager_run(db, pager_start(), db.len() / (PAGE_SIZE as nat) + 1).requests == db.len() / (PAGE_SIZE as nat) + 1,
        db.len() % (PAGE_SIZE as nat) != 0 ==> pager_run(db, pager_start(), db.len() / (PAGE_SIZE as nat) + 1).requests
            == (db.len() + PAGE_SIZE - 1) / (PAGE_SIZE as int),
{
    let v = pager_start::<T>();
    assert forall|i: int| 0 <= i < db.len() implies id_lt(v.cursor, #[trigger] db[i].key()) by {
        assert(db[i].key().len() > 0);
    }
    assert(v.records =~= db.take(0));
    lemma_drain_from(db, v, 0, db.len() / (PAGE_SIZE as nat) + 1);
}

} // verus!
