//! The document store access layer: one generic capability set — create
//! with validation, point lookup, filtered and paginated reads, atomic
//! find-and-update, bulk update and delete, counting and aggregation —
//! over an in-memory collection of documents, specified against its view
//! (the sequence of stored documents in creation order).
//!
//! The store keeps three invariants: every stored document carries a
//! distinct, store-assigned identifier; documents sit in creation order,
//! so the newest-first ordering of a paginated read is the reverse of the
//! stored order; and a monotone write clock bounds every creation
//! timestamp.

use vstd::prelude::*;
use vstd::pervasive::VecAdditionalExecFns;
use vstd::string::StringExecFns;

use crate::errors::Error;
use crate::model::{spec_is_valid, Model};
use crate::oid::ObjectId;
use crate::query::{spec_apply, spec_matches, Filter, FilterView, FindOptions, ModelUpdate};

verus! {

/// The documents of `docs` that match `f`, in stored order.
pub open spec fn spec_filtered(docs: Seq<Model>, f: FilterView) -> Seq<Model>
    decreases docs.len(),
{
    if docs.len() == 0 {
        Seq::empty()
    } else {
        spec_filtered(docs.drop_last(), f) + (if spec_matches(f, docs.last()) {
            seq![docs.last()]
        } else {
            Seq::empty()
        })
    }
}

/// The documents of `docs` that match `f`, newest first (reverse stored
/// order).
pub open spec fn spec_filtered_desc(docs: Seq<Model>, f: FilterView) -> Seq<Model>
    decreases docs.len(),
{
    if docs.len() == 0 {
        Seq::empty()
    } else {
        (if spec_matches(f, docs.last()) {
            seq![docs.last()]
        } else {
            Seq::empty()
        }) + spec_filtered_desc(docs.drop_last(), f)
    }
}

/// The matches of `f`, in the order `o` asks for.
pub open spec fn spec_arranged(docs: Seq<Model>, f: FilterView, o: FindOptions) -> Seq<Model> {
    if o.sort_created_desc {
        spec_filtered_desc(docs, f)
    } else {
        spec_filtered(docs, f)
    }
}

/// The window `o`'s skip and limit cut out of the arranged matches: what a
/// filtered read returns.
pub open spec fn spec_page(docs: Seq<Model>, f: FilterView, o: FindOptions) -> Seq<Model> {
    let a = spec_arranged(docs, f, o);
    let lo: int = match o.skip {
        Some(s) => if s as int <= a.len() {
            s as int
        } else {
            a.len() as int
        },
        None => 0,
    };
    let hi: int = match o.limit {
        Some(l) => if lo + l <= a.len() {
            lo + l
        } else {
            a.len() as int
        },
        None => a.len() as int,
    };
    a.subrange(lo, hi)
}

/// Whether some document of `docs` matches `f`.
pub open spec fn spec_has_match(docs: Seq<Model>, f: FilterView) -> bool {
    exists|i: int| 0 <= i < docs.len() && spec_matches(f, #[trigger] docs[i])
}

/// The index of the first match of `f` in `docs` (`docs.len()` when none
/// matches).
pub open spec fn spec_first_match_idx(docs: Seq<Model>, f: FilterView) -> int
    decreases docs.len(),
{
    if docs.len() == 0 {
        0
    } else if spec_matches(f, docs[0]) {
        0
    } else {
        1 + spec_first_match_idx(docs.drop_first(), f)
    }
}

/// Where a match exists, the first-match index points at it and nothing
/// before it matches.
pub proof fn lemma_first_match(docs: Seq<Model>, f: FilterView)
    ensures
        spec_has_match(docs, f) ==> {
            let i = spec_first_match_idx(docs, f);
            &&& 0 <= i < docs.len()
            &&& spec_matches(f, docs[i])
            &&& forall|j: int| 0 <= j < i ==> !spec_matches(f, #[trigger] docs[j])
        },
        !spec_has_match(docs, f) ==> spec_first_match_idx(docs, f) == docs.len(),
    decreases docs.len(),
{
    if docs.len() == 0 {
    } else if spec_matches(f, docs[0]) {
    } else {
        let t = docs.drop_first();
        lemma_first_match(t, f);
        assert(forall|j: int| 0 <= j < t.len() ==> t[j] == docs[j + 1]);
        if spec_has_match(docs, f) {
            let w = choose|i: int| 0 <= i < docs.len() && spec_matches(f, #[trigger] docs[i]);
            assert(w != 0);
            assert(t[w - 1] == docs[w]);
            assert(spec_has_match(t, f));
        }
        if spec_has_match(t, f) {
            let w = choose|i: int| 0 <= i < t.len() && spec_matches(f, #[trigger] t[i]);
            assert(docs[w + 1] == t[w]);
            assert(spec_has_match(docs, f));
            let it = spec_first_match_idx(t, f);
            assert(spec_first_match_idx(docs, f) == 1 + it);
            assert(docs[1 + it] == t[it]);
            assert(spec_matches(f, docs[1 + it]));
            assert forall|j: int| 0 <= j < 1 + it implies !spec_matches(f, #[trigger] docs[j]) by {
                if j > 0 {
                    assert(t[j - 1] == docs[j]);
                    assert(!spec_matches(f, t[j - 1]));
                }
            }
        }
    }
}

/// Every document the ascending arrangement returns matches the filter and
/// comes from the store; there are no more of them than stored documents.
pub proof fn lemma_filtered_props(docs: Seq<Model>, f: FilterView)
    ensures
        spec_filtered(docs, f).len() <= docs.len(),
        forall|k: int|
            0 <= k < spec_filtered(docs, f).len() ==> spec_matches(
                f,
                #[trigger] spec_filtered(docs, f)[k],
            ) && docs.contains(spec_filtered(docs, f)[k]),
    decreases docs.len(),
{
    if docs.len() == 0 {
    } else {
        let t = docs.drop_last();
        lemma_filtered_props(t, f);
        assert(forall|x: Model| t.contains(x) ==> docs.contains(x)) by {
            assert(forall|j: int| 0 <= j < t.len() ==> t[j] == docs[j]);
        };
        assert(docs.contains(docs.last()));
    }
}

/// The same, for the newest-first arrangement.
pub proof fn lemma_filtered_desc_props(docs: Seq<Model>, f: FilterView)
    ensures
        spec_filtered_desc(docs, f).len() == spec_filtered(docs, f).len(),
        forall|k: int|
            0 <= k < spec_filtered_desc(docs, f).len() ==> spec_matches(
                f,
                #[trigger] spec_filtered_desc(docs, f)[k],
            ) && docs.contains(spec_filtered_desc(docs, f)[k]),
    decreases docs.len(),
{
    if docs.len() == 0 {
    } else {
        let t = docs.drop_last();
        lemma_filtered_desc_props(t, f);
        lemma_filtered_props(t, f);
        lemma_filtered_props(docs, f);
        assert(forall|x: Model| t.contains(x) ==> docs.contains(x)) by {
            assert(forall|j: int| 0 <= j < t.len() ==> t[j] == docs[j]);
        };
        assert(docs.contains(docs.last()));
    }
}

/// A match exists exactly when the filtered sequence is non-empty.
pub proof fn lemma_has_match_iff_filtered(docs: Seq<Model>, f: FilterView)
    ensures
        spec_has_match(docs, f) <==> spec_filtered(docs, f).len() > 0,
    decreases docs.len(),
{
    if docs.len() == 0 {
    } else {
        let t = docs.drop_last();
        lemma_has_match_iff_filtered(t, f);
        assert(forall|j: int| 0 <= j < t.len() ==> t[j] == docs[j]);
        if spec_matches(f, docs.last()) {
            assert(spec_has_match(docs, f));
        } else {
            if spec_has_match(docs, f) {
                let w = choose|i: int|
                    0 <= i < docs.len() && spec_matches(f, #[trigger] docs[i]);
                assert(w < docs.len() - 1);
                assert(t[w] == docs[w]);
                assert(spec_has_match(t, f));
            }
            if spec_has_match(t, f) {
                let w = choose|i: int| 0 <= i < t.len() && spec_matches(f, #[trigger] t[i]);
                assert(docs[w] == t[w]);
                assert(spec_has_match(docs, f));
            }
        }
    }
}

spec fn wf_docs(docs: Seq<Model>, next_id: u64, clock: u64) -> bool {
    &&& forall|i: int|
        0 <= i < docs.len() ==> ((#[trigger] docs[i]).id matches Some(oid) && oid.hi == 0
            && oid.lo < next_id)
    &&& forall|i: int, j: int|
        0 <= i < j < docs.len() ==> #[trigger] docs[i].id != #[trigger] docs[j].id
    &&& forall|i: int, j: int|
        0 <= i <= j < docs.len() ==> #[trigger] docs[i].created_at <= #[trigger] docs[j].created_at
    &&& forall|i: int| 0 <= i < docs.len() ==> (#[trigger] docs[i]).created_at <= clock
}

proof fn lemma_wf_docs_update(a: Seq<Model>, b: Seq<Model>, i: int, next_id: u64, clock: u64)
    requires
        wf_docs(a, next_id, clock),
        0 <= i < a.len(),
        b.len() == a.len(),
        forall|j: int| 0 <= j < a.len() && j != i ==> #[trigger] b[j] == a[j],
        b[i].id == a[i].id,
        b[i].created_at == a[i].created_at,
    ensures
        wf_docs(b, next_id, clock),
{
    assert(forall|j: int|
        0 <= j < b.len() ==> (#[trigger] b[j]).id == a[j].id && b[j].created_at
            == a[j].created_at);
}

proof fn lemma_wf_docs_remove(a: Seq<Model>, b: Seq<Model>, i: int, next_id: u64, clock: u64)
    requires
        wf_docs(a, next_id, clock),
        0 <= i < a.len(),
        b =~= a.remove(i),
    ensures
        wf_docs(b, next_id, clock),
{
    a.remove_ensures(i);
    assert(forall|j: int| 0 <= j < i ==> #[trigger] b[j] == a[j]);
    assert(forall|j: int| i <= j < b.len() ==> #[trigger] b[j] == a[j + 1]);
}

proof fn lemma_wf_docs_retained(a: Seq<Model>, f: FilterView, next_id: u64, clock: u64)
    requires
        wf_docs(a, next_id, clock),
    ensures
        wf_docs(spec_retained(a, f), next_id, clock),
    decreases a.len(),
{
    if a.len() == 0 {
    } else {
        let t = a.drop_last();
        assert(forall|j: int| 0 <= j < t.len() ==> #[trigger] t[j] == a[j]);
        assert(wf_docs(t, next_id, clock));
        lemma_wf_docs_retained(t, f, next_id, clock);
        lemma_retained_props(t, f);
        let r1 = spec_retained(t, f);
        let r2 = spec_retained(a, f);
        if spec_matches(f, a.last()) {
            assert(r2 =~= r1);
        } else {
            assert(r2 =~= r1.push(a.last()));
            let last = a.last();
            assert(a.contains(last));
            assert forall|k: int| 0 <= k < r1.len() implies (#[trigger] r1[k]).id != last.id
                && r1[k].created_at <= last.created_at by {
                let w = choose|w: int| 0 <= w < t.len() && t[w] == r1[k];
                assert(a[w] == r1[k]);
                assert(a[w].id != a[a.len() - 1].id);
                assert(a[w].created_at <= a[a.len() - 1].created_at);
            }
        }
    }
}

/// The in-memory document store. Its view is the sequence of stored
/// documents in creation order.
pub struct Store {
    docs: Vec<Model>,
    next_id: u64,
    clock: u64,
    indexes_synced: bool,
}

impl View for Store {
    type V = Seq<Model>;

    closed spec fn view(&self) -> Seq<Model> {
        self.docs@
    }
}

impl Store {
    /// How many identifiers the store has assigned so far.
    pub closed spec fn ids_assigned(&self) -> u64 {
        self.next_id
    }

    /// The store's monotone write clock: no stored document's creation
    /// timestamp exceeds it.
    pub closed spec fn write_clock(&self) -> u64 {
        self.clock
    }

    /// Whether the secondary indexes have been brought in line with the
    /// model's declared index set.
    pub closed spec fn indexes_in_sync(&self) -> bool {
        self.indexes_synced
    }

    /// The store's invariants: every stored document carries a distinct
    /// store-assigned identifier, documents sit in creation order, and the
    /// write clock bounds every creation timestamp.
    pub closed spec fn wf(&self) -> bool {
        wf_docs(self.docs@, self.next_id, self.clock)
    }

    /// An empty store.
    pub fn new() -> (s: Store)
        ensures
            s.wf(),
            s@ =~= Seq::<Model>::empty(),
            s.ids_assigned() == 0,
            s.write_clock() == 0,
            !s.indexes_in_sync(),
    {
        Store { docs: Vec::new(), next_id: 0, clock: 0, indexes_synced: false }
    }

    /// Creates a document: validation runs first, and an invalid model
    /// never reaches the store. On success the stored model comes back,
    /// carrying a fresh store-assigned identifier and a creation timestamp
    /// clamped up to the write clock, and is appended to the store.
    pub fn create(&mut self, model: Model) -> (r: Result<Model, Error>)
        requires
            old(self).wf(),
        ensures
            final(self).wf(),
            !spec_is_valid(model) ==> (r matches Err(e) && e matches Error::BadRequest { .. }
                && *final(self) == *old(self)),
            spec_is_valid(model) && old(self).ids_assigned() == u64::MAX ==> (r matches Err(e)
                && e matches Error::StoreFailure { .. } && *final(self) == *old(self)),
            spec_is_valid(model) && old(self).ids_assigned() < u64::MAX ==> (r matches Ok(stored)
                && {
                &&& stored.id matches Some(oid) && oid.hi == 0 && oid.lo == old(self).ids_assigned()
                &&& forall|i: int| 0 <= i < old(self)@.len() ==> (#[trigger] old(self)@[i]).id != stored.id
                &&& stored.owner@ == model.owner@
                &&& stored.name@ == model.name@
                &&& stored.created_at == (if model.created_at >= old(self).write_clock() {
                    model.created_at
                } else {
                    old(self).write_clock()
                })
                &&& final(self)@ =~= old(self)@.push(stored)
                &&& final(self).ids_assigned() == old(self).ids_assigned() + 1
                &&& final(self).write_clock() == stored.created_at
                &&& final(self).indexes_in_sync() == old(self).indexes_in_sync()
            }),
    {
        if !model.validate() {
            return Err(Error::bad_request("validation failed"));
        }
        if self.next_id == u64::MAX {
            return Err(Error::store_failure(String::from_str("id space exhausted")));
        }
        let oid = ObjectId { hi: 0, lo: self.next_id };
        let created_at = if model.created_at >= self.clock {
            model.created_at
        } else {
            self.clock
        };
        let stored = Model { id: Some(oid), owner: model.owner, name: model.name, created_at };
        let copy = stored.clone();
        self.docs.push(stored);
        self.next_id = self.next_id + 1;
        self.clock = created_at;
        Ok(copy)
    }

    /// Counts every document matching `f`, independent of any skip or
    /// limit.
    pub fn count(&self, f: &Filter) -> (r: Result<u64, Error>)
        requires
            self.wf(),
        ensures
            r matches Ok(c) && c == spec_filtered(self@, f@).len(),
    {
        proof {
            lemma_filtered_props(self@, f@);
        }
        let mut c: u64 = 0;
        let mut i: usize = 0;
        while i < self.docs.len()
            invariant
                0 <= i <= self.docs@.len(),
                c <= i,
                c == spec_filtered(self.docs@.subrange(0, i as int), f@).len(),
            decreases self.docs@.len() - i,
        {
            proof {
                assert(self.docs@.subrange(0, i + 1).drop_last() =~= self.docs@.subrange(
                    0,
                    i as int,
                ));
                assert(self.docs@.subrange(0, i + 1).last() == self.docs@[i as int]);
            }
            if f.matches(&self.docs[i]) {
                c = c + 1;
            }
            i = i + 1;
        }
        proof {
            assert(self.docs@.subrange(0, self.docs@.len() as int) =~= self.docs@);
        }
        Ok(c)
    }

    /// Whether any document matches `f`: defined as `count(f) > 0`.
    pub fn exists_match(&self, f: &Filter) -> (r: Result<bool, Error>)
        requires
            self.wf(),
        ensures
            r matches Ok(b) && b == (spec_filtered(self@, f@).len() > 0),
            r matches Ok(b) && b == spec_has_match(self@, f@),
    {
        proof {
            lemma_has_match_iff_filtered(self@, f@);
        }
        let c = match self.count(f) {
            Ok(c) => c,
            Err(e) => {
                return Err(e);
            },
        };
        Ok(c > 0)
    }

    /// The first match of `f` in stored order, if any; absence is a valid
    /// `None`, not an error.
    pub fn find_one(&self, f: &Filter) -> (r: Result<Option<Model>, Error>)
        requires
            self.wf(),
        ensures
            r matches Ok(opt) && (match opt {
                Some(m) => spec_has_match(self@, f@) && m == self@[spec_first_match_idx(self@, f@)]
                    && m.id is Some,
                None => !spec_has_match(self@, f@),
            }),
    {
        let mut i: usize = 0;
        while i < self.docs.len()
            invariant
                self.wf(),
                0 <= i <= self.docs@.len(),
                forall|j: int| 0 <= j < i ==> !spec_matches(f@, #[trigger] self.docs@[j]),
            decreases self.docs@.len() - i,
        {
            if f.matches(&self.docs[i]) {
                proof {
                    lemma_first_match_at(self@, f@, i as int);
                }
                return Ok(Some(self.docs[i].clone()));
            }
            i = i + 1;
        }
        proof {
            if spec_has_match(self@, f@) {
                let w = choose|k: int| 0 <= k < self@.len() && spec_matches(f@, #[trigger] self@[k]);
                assert(!spec_matches(f@, self@[w]));
            }
        }
        Ok(None)
    }

    /// Point lookup by identifier only — no owner scoping. Callers that
    /// need tenant isolation must use [`Store::find_one`] with a filter
    /// naming both identifier and owner.
    pub fn find_by_id(&self, id: &ObjectId) -> (r: Result<Option<Model>, Error>)
        requires
            self.wf(),
        ensures
            r matches Ok(opt) && (match opt {
                Some(m) => m.id == Some(*id) && self@.contains(m),
                None => forall|i: int| 0 <= i < self@.len() ==> (#[trigger] self@[i]).id != Some(*id),
            }),
    {
        let f = Filter::by_id(*id);
        let r = match self.find_one(&f) {
            Ok(r) => r,
            Err(e) => {
                return Err(e);
            },
        };
        proof {
            lemma_first_match(self@, f@);
            if !spec_has_match(self@, f@) {
                assert forall|i: int| 0 <= i < self@.len() implies (#[trigger] self@[i]).id != Some(
                    *id,
                ) by {
                    if self@[i].id == Some(*id) {
                        assert(spec_matches(f@, self@[i]));
                    }
                }
            }
        }
        Ok(r)
    }

    /// Every match of `f`, arranged and windowed as `o` asks: newest
    /// first when `o.sort_created_desc`, then the skip, then the limit.
    pub fn find(&self, f: &Filter, o: &FindOptions) -> (r: Result<Vec<Model>, Error>)
        requires
            self.wf(),
        ensures
            r matches Ok(page) && page@ == spec_page(self@, f@, *o),
            r matches Ok(page) && forall|k: int|
                0 <= k < page@.len() ==> (#[trigger] page@[k]).id is Some && self@.contains(
                    page@[k],
                ),
    {
        let mut arranged: Vec<Model> = Vec::new();
        let mut i: usize = 0;
        while i < self.docs.len()
            invariant
                0 <= i <= self.docs@.len(),
                arranged@ == spec_arranged(self.docs@.subrange(0, i as int), f@, *o),
            decreases self.docs@.len() - i,
        {
            proof {
                assert(self.docs@.subrange(0, i + 1).drop_last() =~= self.docs@.subrange(
                    0,
                    i as int,
                ));
                assert(self.docs@.subrange(0, i + 1).last() == self.docs@[i as int]);
            }
            if f.matches(&self.docs[i]) {
                let doc = self.docs[i].clone();
                if o.sort_created_desc {
                    arranged.insert(0, doc);
                    proof {
                        assert(arranged@ =~= seq![self.docs@[i as int]] + spec_filtered_desc(
                            self.docs@.subrange(0, i as int),
                            f@,
                        ));
                    }
                } else {
                    arranged.push(doc);
                    proof {
                        assert(arranged@ =~= spec_filtered(self.docs@.subrange(0, i as int), f@)
                            + seq![self.docs@[i as int]]);
                    }
                }
            }
            i = i + 1;
        }
        proof {
            assert(self.docs@.subrange(0, self.docs@.len() as int) =~= self.docs@);
        }
        let ghost a = spec_arranged(self@, f@, *o);
        let total: usize = arranged.len();
        let lo: usize = match o.skip {
            Some(s) => {
                if s >= total as u64 {
                    total
                } else {
                    s as usize
                }
            },
            None => 0,
        };
        let hi: usize = match o.limit {
            Some(l) => {
                if l >= (total - lo) as u64 {
                    total
                } else {
                    lo + l as usize
                }
            },
            None => total,
        };
        let mut page: Vec<Model> = Vec::new();
        let mut k: usize = lo;
        while k < hi
            invariant
                lo <= k <= hi <= total,
                total == arranged@.len(),
                page@ =~= arranged@.subrange(lo as int, k as int),
            decreases hi - k,
        {
            page.push(arranged[k].clone());
            proof {
                assert(page@ =~= arranged@.subrange(lo as int, k + 1));
            }
            k = k + 1;
        }
        proof {
            assert(page@ =~= spec_page(self@, f@, *o));
            lemma_filtered_props(self@, f@);
            lemma_filtered_desc_props(self@, f@);
            assert forall|k2: int| 0 <= k2 < page@.len() implies (#[trigger] page@[k2]).id is Some
                && self@.contains(page@[k2]) by {
                assert(page@[k2] == a[lo + k2]);
                assert(self@.contains(a[lo + k2]));
                let w = choose|w: int| 0 <= w < self@.len() && self@[w] == a[lo + k2];
                assert(self@[w].id is Some);
            }
        }
        Ok(page)
    }

    /// A paginated read: the page `find` returns for `f` and `o`, beside a
    /// count of all documents matching `f`, computed from the same filter
    /// and independent of any skip or limit.
    pub fn find_and_count(&self, f: &Filter, o: &FindOptions) -> (r: Result<
        (Vec<Model>, u64),
        Error,
    >)
        requires
            self.wf(),
        ensures
            r matches Ok(pc) && pc.0@ == spec_page(self@, f@, *o) && pc.1 == spec_filtered(
                self@,
                f@,
            ).len(),
            r matches Ok(pc) && forall|k: int|
                0 <= k < pc.0@.len() ==> (#[trigger] pc.0@[k]).id is Some && self@.contains(
                    pc.0@[k],
                ),
    {
        let count = match self.count(f) {
            Ok(c) => c,
            Err(e) => {
                return Err(e);
            },
        };
        let page = match self.find(f, o) {
            Ok(p) => p,
            Err(e) => {
                return Err(e);
            },
        };
        Ok((page, count))
    }

    /// Atomically updates the first match of `f` in stored order and
    /// returns the document's state *after* the update — never the
    /// pre-update state. No match is a valid `None`, not an error, and
    /// leaves the store untouched.
    pub fn find_one_and_update(&mut self, f: &Filter, u: &ModelUpdate) -> (r: Result<
        Option<Model>,
        Error,
    >)
        requires
            old(self).wf(),
        ensures
            final(self).wf(),
            r matches Ok(opt) && (match opt {
                Some(m) => {
                    let i = spec_first_match_idx(old(self)@, f@);
                    &&& spec_has_match(old(self)@, f@)
                    &&& m == spec_apply(*u, old(self)@[i])
                    &&& m.id is Some
                    &&& final(self)@ =~= old(self)@.update(i, m)
                    &&& final(self).ids_assigned() == old(self).ids_assigned()
                    &&& final(self).write_clock() == old(self).write_clock()
                    &&& final(self).indexes_in_sync() == old(self).indexes_in_sync()
                },
                None => !spec_has_match(old(self)@, f@) && *final(self) == *old(self),
            }),
    {
        let ghost docs0 = self.docs@;
        let mut i: usize = 0;
        while i < self.docs.len()
            invariant
                old(self).wf(),
                *self == *old(self),
                docs0 == self.docs@,
                0 <= i <= self.docs@.len(),
                forall|j: int| 0 <= j < i ==> !spec_matches(f@, #[trigger] self.docs@[j]),
            decreases self.docs@.len() - i,
        {
            if f.matches(&self.docs[i]) {
                proof {
                    lemma_first_match_at(docs0, f@, i as int);
                }
                let updated = u.apply(&self.docs[i]);
                let ret = updated.clone();
                self.docs.set(i, updated);
                proof {
                    lemma_wf_docs_update(docs0, self.docs@, i as int, self.next_id, self.clock);
                }
                return Ok(Some(ret));
            }
            i = i + 1;
        }
        proof {
            if spec_has_match(self@, f@) {
                let w = choose|k: int| 0 <= k < self@.len() && spec_matches(f@, #[trigger] self@[k]);
                assert(!spec_matches(f@, self@[w]));
            }
        }
        Ok(None)
    }

    /// Updates the first match of `f`, reporting matched and modified
    /// counts. Zero matches report as zero and leave the store untouched;
    /// the caller decides whether that is an error.
    pub fn update_one(&mut self, f: &Filter, u: &ModelUpdate) -> (r: Result<UpdateOutcome, Error>)
        requires
            old(self).wf(),
        ensures
            final(self).wf(),
            r matches Ok(out) && (if spec_has_match(old(self)@, f@) {
                let i = spec_first_match_idx(old(self)@, f@);
                let m = spec_apply(*u, old(self)@[i]);
                &&& out.matched_count == 1
                &&& out.modified_count == (if m.name@ != old(self)@[i].name@ {
                    1int
                } else {
                    0int
                })
                &&& final(self)@ =~= old(self)@.update(i, m)
                &&& final(self).ids_assigned() == old(self).ids_assigned()
                &&& final(self).write_clock() == old(self).write_clock()
                &&& final(self).indexes_in_sync() == old(self).indexes_in_sync()
            } else {
                &&& out.matched_count == 0
                &&& out.modified_count == 0
                &&& *final(self) == *old(self)
            }),
    {
        let ghost docs0 = self.docs@;
        let mut i: usize = 0;
        while i < self.docs.len()
            invariant
                old(self).wf(),
                *self == *old(self),
                docs0 == self.docs@,
                0 <= i <= self.docs@.len(),
                forall|j: int| 0 <= j < i ==> !spec_matches(f@, #[trigger] self.docs@[j]),
            decreases self.docs@.len() - i,
        {
            if f.matches(&self.docs[i]) {
                proof {
                    lemma_first_match_at(docs0, f@, i as int);
                }
                let updated = u.apply(&self.docs[i]);
                let modified: u64 = if updated.name == self.docs[i].name {
                    0
                } else {
                    1
                };
                self.docs.set(i, updated);
                proof {
                    lemma_wf_docs_update(docs0, self.docs@, i as int, self.next_id, self.clock);
                }
                return Ok(UpdateOutcome { matched_count: 1, modified_count: modified });
            }
            i = i + 1;
        }
        proof {
            if spec_has_match(self@, f@) {
                let w = choose|k: int| 0 <= k < self@.len() && spec_matches(f@, #[trigger] self@[k]);
                assert(!spec_matches(f@, self@[w]));
            }
        }
        Ok(UpdateOutcome { matched_count: 0, modified_count: 0 })
    }

    /// Updates every match of `f`, reporting how many matched and how many
    /// actually changed.
    pub fn update_many(&mut self, f: &Filter, u: &ModelUpdate) -> (r: Result<UpdateOutcome, Error>)
        requires
            old(self).wf(),
        ensures
            final(self).wf(),
            final(self)@.len() == old(self)@.len(),
            r matches Ok(out) && {
                &&& out.matched_count == spec_filtered(old(self)@, f@).len()
                &&& out.modified_count == spec_modified_count(old(self)@, f@, *u)
                &&& forall|j: int|
                    0 <= j < old(self)@.len() && spec_matches(f@, #[trigger] old(self)@[j])
                        ==> final(self)@[j] == spec_apply(*u, old(self)@[j])
                &&& forall|j: int|
                    0 <= j < old(self)@.len() && !spec_matches(f@, #[trigger] old(self)@[j])
                        ==> final(self)@[j] == old(self)@[j]
            },
            final(self).ids_assigned() == old(self).ids_assigned(),
            final(self).write_clock() == old(self).write_clock(),
            final(self).indexes_in_sync() == old(self).indexes_in_sync(),
    {
        let ghost docs0 = self.docs@;
        let mut matched: u64 = 0;
        let mut modified: u64 = 0;
        let mut i: usize = 0;
        while i < self.docs.len()
            invariant
                old(self).wf(),
                self.wf(),
                self.docs@.len() == docs0.len(),
                self.next_id == old(self).next_id,
                self.clock == old(self).clock,
                self.indexes_synced == old(self).indexes_synced,
                docs0 == old(self)@,
                0 <= i <= self.docs@.len(),
                matched <= i,
                modified <= matched,
                matched == spec_filtered(docs0.subrange(0, i as int), f@).len(),
                modified == spec_modified_count(docs0.subrange(0, i as int), f@, *u),
                forall|j: int|
                    i <= j < docs0.len() ==> #[trigger] self.docs@[j] == docs0[j],
                forall|j: int|
                    0 <= j < i && spec_matches(f@, #[trigger] docs0[j]) ==> self.docs@[j]
                        == spec_apply(*u, docs0[j]),
                forall|j: int|
                    0 <= j < i && !spec_matches(f@, #[trigger] docs0[j]) ==> self.docs@[j]
                        == docs0[j],
            decreases self.docs@.len() - i,
        {
            proof {
                assert(docs0.subrange(0, i + 1).drop_last() =~= docs0.subrange(0, i as int));
                assert(docs0.subrange(0, i + 1).last() == docs0[i as int]);
                assert(self.docs@[i as int] == docs0[i as int]);
            }
            if f.matches(&self.docs[i]) {
                let ghost prev = self.docs@;
                let updated = u.apply(&self.docs[i]);
                matched = matched + 1;
                if !(updated.name == self.docs[i].name) {
                    modified = modified + 1;
                }
                self.docs.set(i, updated);
                proof {
                    lemma_wf_docs_update(prev, self.docs@, i as int, self.next_id, self.clock);
                }
            }
            i = i + 1;
        }
        proof {
            assert(docs0.subrange(0, docs0.len() as int) =~= docs0);
        }
        Ok(UpdateOutcome { matched_count: matched, modified_count: modified })
    }

    /// Deletes the first match of `f`, reporting the exact count removed:
    /// 1, or 0 without error when nothing matched. A caller that meant to
    /// delete one specific resource translates 0 into `NotFound` itself.
    pub fn delete_one(&mut self, f: &Filter) -> (r: Result<DeleteOutcome, Error>)
        requires
            old(self).wf(),
        ensures
            final(self).wf(),
            r matches Ok(out) && (if spec_has_match(old(self)@, f@) {
                &&& out.deleted_count == 1
                &&& final(self)@ =~= old(self)@.remove(spec_first_match_idx(old(self)@, f@))
                &&& final(self).ids_assigned() == old(self).ids_assigned()
                &&& final(self).write_clock() == old(self).write_clock()
                &&& final(self).indexes_in_sync() == old(self).indexes_in_sync()
            } else {
                &&& out.deleted_count == 0
                &&& *final(self) == *old(self)
            }),
    {
        let ghost docs0 = self.docs@;
        let mut i: usize = 0;
        while i < self.docs.len()
            invariant
                old(self).wf(),
                *self == *old(self),
                docs0 == self.docs@,
                0 <= i <= self.docs@.len(),
                forall|j: int| 0 <= j < i ==> !spec_matches(f@, #[trigger] self.docs@[j]),
            decreases self.docs@.len() - i,
        {
            if f.matches(&self.docs[i]) {
                proof {
                    lemma_first_match_at(docs0, f@, i as int);
                }
                self.docs.remove(i);
                proof {
                    assert(self.docs@ =~= docs0.subrange(0, i as int) + docs0.subrange(
                        i + 1,
                        docs0.len() as int,
                    ));
                    lemma_wf_docs_remove(docs0, self.docs@, i as int, self.next_id, self.clock);
                }
                return Ok(DeleteOutcome { deleted_count: 1 });
            }
            i = i + 1;
        }
        proof {
            if spec_has_match(self@, f@) {
                let w = choose|k: int| 0 <= k < self@.len() && spec_matches(f@, #[trigger] self@[k]);
                assert(!spec_matches(f@, self@[w]));
            }
        }
        Ok(DeleteOutcome { deleted_count: 0 })
    }

    /// Deletes every match of `f`, reporting the exact count removed; the
    /// non-matching documents stay, in their stored order.
    pub fn delete_many(&mut self, f: &Filter) -> (r: Result<DeleteOutcome, Error>)
        requires
            old(self).wf(),
        ensures
            final(self).wf(),
            r matches Ok(out) && {
                &&& final(self)@ =~= spec_retained(old(self)@, f@)
                &&& out.deleted_count == spec_filtered(old(self)@, f@).len()
            },
            final(self).ids_assigned() == old(self).ids_assigned(),
            final(self).write_clock() == old(self).write_clock(),
            final(self).indexes_in_sync() == old(self).indexes_in_sync(),
    {
        let ghost docs0 = self.docs@;
        let mut kept: Vec<Model> = Vec::new();
        let mut deleted: u64 = 0;
        let mut i: usize = 0;
        while i < self.docs.len()
            invariant
                old(self).wf(),
                *self == *old(self),
                0 <= i <= self.docs@.len(),
                deleted <= i,
                kept@ == spec_retained(self.docs@.subrange(0, i as int), f@),
                deleted == spec_filtered(self.docs@.subrange(0, i as int), f@).len(),
            decreases self.docs@.len() - i,
        {
            proof {
                assert(self.docs@.subrange(0, i + 1).drop_last() =~= self.docs@.subrange(
                    0,
                    i as int,
                ));
                assert(self.docs@.subrange(0, i + 1).last() == self.docs@[i as int]);
            }
            if f.matches(&self.docs[i]) {
                deleted = deleted + 1;
            } else {
                kept.push(self.docs[i].clone());
                proof {
                    assert(kept@ =~= spec_retained(self.docs@.subrange(0, i as int), f@) + seq![
                        self.docs@[i as int],
                    ]);
                }
            }
            i = i + 1;
        }
        proof {
            assert(self.docs@.subrange(0, self.docs@.len() as int) =~= self.docs@);
            lemma_wf_docs_retained(docs0, f@, self.next_id, self.clock);
        }
        self.docs = kept;
        Ok(DeleteOutcome { deleted_count: deleted })
    }

    /// Brings the store's secondary indexes in line with the model's
    /// declared index set. Idempotent, and touches no document; a failure
    /// here is reported, and the caller decides that it does not stop the
    /// rest of the system.
    pub fn sync_indexes(&mut self) -> (r: Result<(), Error>)
        requires
            old(self).wf(),
        ensures
            final(self).wf(),
            r is Ok,
            final(self)@ == old(self)@,
            final(self).indexes_in_sync(),
            final(self).ids_assigned() == old(self).ids_assigned(),
            final(self).write_clock() == old(self).write_clock(),
    {
        self.indexes_synced = true;
        Ok(())
    }

    /// Executes a declarative stage pipeline against the store: each stage
    /// transforms the running sequence, starting from every stored
    /// document in creation order. No partial results: the whole output is
    /// returned, or the whole call fails.
    pub fn aggregate(&self, pipeline: &Vec<Stage>) -> (r: Result<Vec<Model>, Error>)
        ensures
            r matches Ok(out) && out@ == spec_pipeline(self@, pipeline@),
    {
        let mut cur = clone_docs(&self.docs);
        let mut s: usize = 0;
        while s < pipeline.len()
            invariant
                0 <= s <= pipeline@.len(),
                cur@ == spec_pipeline(self.docs@, pipeline@.subrange(0, s as int)),
            decreases pipeline@.len() - s,
        {
            proof {
                assert(pipeline@.subrange(0, s + 1) =~= pipeline@.subrange(0, s as int).push(
                    pipeline@[s as int],
                ));
                lemma_pipeline_snoc(
                    self.docs@,
                    pipeline@.subrange(0, s as int),
                    pipeline@[s as int],
                );
            }
            cur = match &pipeline[s] {
                Stage::MatchBy(f) => filter_docs(&cur, f),
                Stage::NewestFirst => reverse_docs(&cur),
                Stage::SkipStage(n) => skip_docs(&cur, *n),
                Stage::LimitStage(n) => limit_docs(&cur, *n),
            };
            s = s + 1;
        }
        proof {
            assert(pipeline@.subrange(0, pipeline@.len() as int) =~= pipeline@);
        }
        Ok(cur)
    }

    /// A filtered read handed out as one materialized batch, to walk
    /// document by document: the same sequence `find` returns.
    pub fn cursor(&self, f: &Filter, o: &FindOptions) -> (r: Result<Vec<Model>, Error>)
        requires
            self.wf(),
        ensures
            r matches Ok(batch) && batch@ == spec_page(self@, f@, *o),
    {
        self.find(f, o)
    }
}

/// One declarative stage of an aggregation pipeline.
pub enum Stage {
    /// Keep only the documents matching the filter, in their running
    /// order.
    MatchBy(Filter),
    /// Reverse the running sequence. On a store read in creation order
    /// this arranges the documents newest first.
    NewestFirst,
    /// Drop the first `n` documents of the running sequence.
    SkipStage(u64),
    /// Keep at most the first `n` documents of the running sequence.
    LimitStage(u64),
}

/// What one stage makes of the running sequence.
pub open spec fn spec_stage(input: Seq<Model>, st: Stage) -> Seq<Model> {
    match st {
        Stage::MatchBy(f) => spec_filtered(input, f@),
        Stage::NewestFirst => input.reverse(),
        Stage::SkipStage(n) => if n as int <= input.len() {
            input.subrange(n as int, input.len() as int)
        } else {
            Seq::empty()
        },
        Stage::LimitStage(n) => if n as int <= input.len() {
            input.subrange(0, n as int)
        } else {
            input
        },
    }
}

/// What a whole pipeline makes of its input: the stages applied in order.
pub open spec fn spec_pipeline(input: Seq<Model>, stages: Seq<Stage>) -> Seq<Model>
    decreases stages.len(),
{
    if stages.len() == 0 {
        input
    } else {
        spec_pipeline(spec_stage(input, stages[0]), stages.drop_first())
    }
}

/// Running one more stage is running it on the pipeline's output.
pub proof fn lemma_pipeline_snoc(input: Seq<Model>, stages: Seq<Stage>, st: Stage)
    ensures
        spec_pipeline(input, stages.push(st)) == spec_stage(spec_pipeline(input, stages), st),
    decreases stages.len(),
{
    let p = stages.push(st);
    if stages.len() == 0 {
        assert(p[0] == st);
        assert(p.drop_first() =~= Seq::<Stage>::empty());
        assert(spec_pipeline(input, p) == spec_pipeline(spec_stage(input, st), p.drop_first()));
        assert(spec_pipeline(spec_stage(input, st), p.drop_first()) == spec_stage(input, st));
        assert(spec_pipeline(input, stages) == input);
    } else {
        let s0 = stages[0];
        let rest = stages.drop_first();
        assert(p.len() == stages.len() + 1);
        assert(p[0] == s0);
        assert(p.drop_first() =~= rest.push(st));
        lemma_pipeline_snoc(spec_stage(input, s0), rest, st);
        assert(spec_pipeline(input, p) == spec_pipeline(spec_stage(input, s0), p.drop_first()));
        assert(spec_pipeline(spec_stage(input, s0), p.drop_first()) == spec_pipeline(
            spec_stage(input, s0),
            rest.push(st),
        ));
        assert(spec_pipeline(input, stages) == spec_pipeline(spec_stage(input, s0), rest));
    }
}

fn clone_docs(v: &Vec<Model>) -> (out: Vec<Model>)
    ensures
        out@ == v@,
{
    let mut out: Vec<Model> = Vec::new();
    let mut i: usize = 0;
    while i < v.len()
        invariant
            0 <= i <= v@.len(),
            out@ =~= v@.subrange(0, i as int),
        decreases v@.len() - i,
    {
        out.push(v[i].clone());
        proof {
            assert(out@ =~= v@.subrange(0, i + 1));
        }
        i = i + 1;
    }
    proof {
        assert(v@.subrange(0, v@.len() as int) =~= v@);
    }
    out
}

fn filter_docs(v: &Vec<Model>, f: &Filter) -> (out: Vec<Model>)
    ensures
        out@ == spec_filtered(v@, f@),
{
    let mut out: Vec<Model> = Vec::new();
    let mut i: usize = 0;
    while i < v.len()
        invariant
            0 <= i <= v@.len(),
            out@ == spec_filtered(v@.subrange(0, i as int), f@),
        decreases v@.len() - i,
    {
        proof {
            assert(v@.subrange(0, i + 1).drop_last() =~= v@.subrange(0, i as int));
            assert(v@.subrange(0, i + 1).last() == v@[i as int]);
        }
        if f.matches(&v[i]) {
            out.push(v[i].clone());
            proof {
                assert(out@ =~= spec_filtered(v@.subrange(0, i as int), f@) + seq![v@[i as int]]);
            }
        }
        i = i + 1;
    }
    proof {
        assert(v@.subrange(0, v@.len() as int) =~= v@);
    }
    out
}

fn reverse_docs(v: &Vec<Model>) -> (out: Vec<Model>)
    ensures
        out@ == v@.reverse(),
{
    let n = v.len();
    let mut out: Vec<Model> = Vec::new();
    let mut i: usize = 0;
    while i < n
        invariant
            0 <= i <= n,
            n == v@.len(),
            out@.len() == i,
            forall|j: int| 0 <= j < i ==> #[trigger] out@[j] == v@[n - 1 - j],
        decreases n - i,
    {
        out.push(v[n - 1 - i].clone());
        i = i + 1;
    }
    proof {
        assert(out@ =~= v@.reverse());
    }
    out
}

fn skip_docs(v: &Vec<Model>, n: u64) -> (out: Vec<Model>)
    ensures
        out@ == spec_stage(v@, Stage::SkipStage(n)),
{
    let len = v.len();
    let lo: usize = if n >= len as u64 {
        len
    } else {
        n as usize
    };
    let mut out: Vec<Model> = Vec::new();
    let mut i: usize = lo;
    while i < len
        invariant
            lo <= i <= len,
            len == v@.len(),
            out@ =~= v@.subrange(lo as int, i as int),
        decreases len - i,
    {
        out.push(v[i].clone());
        proof {
            assert(out@ =~= v@.subrange(lo as int, i + 1));
        }
        i = i + 1;
    }
    out
}

fn limit_docs(v: &Vec<Model>, n: u64) -> (out: Vec<Model>)
    ensures
        out@ == spec_stage(v@, Stage::LimitStage(n)),
{
    let len = v.len();
    let hi: usize = if n >= len as u64 {
        len
    } else {
        n as usize
    };
    let mut out: Vec<Model> = Vec::new();
    let mut i: usize = 0;
    while i < hi
        invariant
            0 <= i <= hi <= len,
            len == v@.len(),
            out@ =~= v@.subrange(0, i as int),
        decreases hi - i,
    {
        out.push(v[i].clone());
        proof {
            assert(out@ =~= v@.subrange(0, i + 1));
        }
        i = i + 1;
    }
    proof {
        if n as int > v@.len() {
            assert(v@.subrange(0, v@.len() as int) =~= v@);
        }
    }
    out
}

/// What a bulk update reports: how many documents the filter matched, and
/// how many the update actually changed. Success is never fabricated: zero
/// matches report as zero, and the caller decides whether that is an error.
pub struct UpdateOutcome {
    pub matched_count: u64,
    pub modified_count: u64,
}

/// What a delete reports: exactly how many documents were removed.
pub struct DeleteOutcome {
    pub deleted_count: u64,
}

/// The documents of `docs` that do not match `f`, in stored order: what a
/// bulk delete leaves behind.
pub open spec fn spec_retained(docs: Seq<Model>, f: FilterView) -> Seq<Model>
    decreases docs.len(),
{
    if docs.len() == 0 {
        Seq::empty()
    } else {
        spec_retained(docs.drop_last(), f) + (if spec_matches(f, docs.last()) {
            Seq::empty()
        } else {
            seq![docs.last()]
        })
    }
}

/// How many matches of `f` the update `u` actually changes.
pub open spec fn spec_modified_count(docs: Seq<Model>, f: FilterView, u: ModelUpdate) -> nat
    decreases docs.len(),
{
    if docs.len() == 0 {
        0nat
    } else {
        spec_modified_count(docs.drop_last(), f, u) + (if spec_matches(f, docs.last())
            && spec_apply(u, docs.last()).name@ != docs.last().name@ {
            1nat
        } else {
            0nat
        })
    }
}

/// What a bulk delete keeps: only non-matches, all of them, from the
/// store; retained and deleted documents together account for the whole
/// store.
pub proof fn lemma_retained_props(docs: Seq<Model>, f: FilterView)
    ensures
        spec_retained(docs, f).len() + spec_filtered(docs, f).len() == docs.len(),
        forall|k: int|
            0 <= k < spec_retained(docs, f).len() ==> !spec_matches(
                f,
                #[trigger] spec_retained(docs, f)[k],
            ) && docs.contains(spec_retained(docs, f)[k]),
    decreases docs.len(),
{
    if docs.len() == 0 {
    } else {
        let t = docs.drop_last();
        lemma_retained_props(t, f);
        assert(forall|x: Model| t.contains(x) ==> docs.contains(x)) by {
            assert(forall|j: int| 0 <= j < t.len() ==> t[j] == docs[j]);
        };
        assert(docs.contains(docs.last()));
    }
}

/// For a paginated read: the page never exceeds the limit, and the skip
/// and the page length stay within the count of all matches — unless the
/// count is at most the skip, in which case the page is empty.
pub proof fn lemma_page_within_count(docs: Seq<Model>, f: FilterView, o: FindOptions)
    ensures
        o.limit matches Some(l) ==> spec_page(docs, f, o).len() <= l,
        o.skip matches Some(s) ==> (spec_filtered(docs, f).len() >= s ==> s + spec_page(
            docs,
            f,
            o,
        ).len() <= spec_filtered(docs, f).len()),
        o.skip matches Some(s) ==> (spec_filtered(docs, f).len() <= s ==> spec_page(
            docs,
            f,
            o,
        ).len() == 0),
{
    lemma_filtered_desc_props(docs, f);
}

/// Where a filter matches exactly one document, the first match is that
/// document: an atomic find-and-update on such a filter returns its
/// post-update state, and a delete removes exactly it.
pub proof fn lemma_unique_match(docs: Seq<Model>, f: FilterView, i: int)
    requires
        0 <= i < docs.len(),
        spec_matches(f, docs[i]),
        forall|j: int| 0 <= j < docs.len() && j != i ==> !spec_matches(f, #[trigger] docs[j]),
    ensures
        spec_has_match(docs, f),
        spec_first_match_idx(docs, f) == i,
{
    lemma_first_match_at(docs, f, i);
}

/// On documents in creation order, the newest-first arrangement never
/// increases in creation time.
pub proof fn lemma_desc_newest_first(docs: Seq<Model>, f: FilterView)
    requires
        forall|i: int, j: int|
            0 <= i <= j < docs.len() ==> #[trigger] docs[i].created_at <= #[trigger] docs[j].created_at,
    ensures
        forall|k: int, k2: int|
            0 <= k <= k2 < spec_filtered_desc(docs, f).len() ==> #[trigger] spec_filtered_desc(
                docs,
                f,
            )[k].created_at >= #[trigger] spec_filtered_desc(docs, f)[k2].created_at,
    decreases docs.len(),
{
    if docs.len() == 0 {
    } else {
        let t = docs.drop_last();
        assert(forall|j: int| 0 <= j < t.len() ==> #[trigger] t[j] == docs[j]);
        lemma_desc_newest_first(t, f);
        lemma_filtered_desc_props(t, f);
        let d = spec_filtered_desc(docs, f);
        let dt = spec_filtered_desc(t, f);
        if spec_matches(f, docs.last()) {
            assert(d =~= seq![docs.last()] + dt);
            assert forall|k: int, k2: int| 0 <= k <= k2 < d.len() implies #[trigger] d[k].created_at
                >= #[trigger] d[k2].created_at by {
                if k == 0 && k2 > 0 {
                    assert(d[k2] == dt[k2 - 1]);
                    assert(t.contains(dt[k2 - 1]));
                    let w = choose|w: int| 0 <= w < t.len() && t[w] == dt[k2 - 1];
                    assert(docs[w].created_at <= docs[docs.len() - 1].created_at);
                } else if k > 0 {
                    assert(d[k] == dt[k - 1]);
                    assert(d[k2] == dt[k2 - 1]);
                }
            }
        } else {
            assert(d =~= dt);
        }
    }
}

/// A paginated read on a well-formed store comes back newest first.
pub proof fn lemma_page_newest_first(s: &Store, f: FilterView, o: FindOptions)
    requires
        s.wf(),
        o.sort_created_desc,
    ensures
        forall|k: int, k2: int|
            0 <= k <= k2 < spec_page(s@, f, o).len() ==> #[trigger] spec_page(
                s@,
                f,
                o,
            )[k].created_at >= #[trigger] spec_page(s@, f, o)[k2].created_at,
{
    lemma_desc_newest_first(s@, f);
}

/// A first hit during a forward scan is the first match.
proof fn lemma_first_match_at(docs: Seq<Model>, f: FilterView, i: int)
    requires
        0 <= i < docs.len(),
        spec_matches(f, docs[i]),
        forall|j: int| 0 <= j < i ==> !spec_matches(f, #[trigger] docs[j]),
    ensures
        spec_has_match(docs, f),
        spec_first_match_idx(docs, f) == i,
    decreases i,
{
    if i == 0 {
    } else {
        let t = docs.drop_first();
        assert(forall|j: int| 0 <= j < t.len() ==> t[j] == docs[j + 1]);
        lemma_first_match_at(t, f, i - 1);
        assert(!spec_matches(f, docs[0]));
    }
}

} // verus!
