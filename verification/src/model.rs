//! The persisted entity ("model"): a store-assigned identifier, an owner
//! reference used to scope queries, a domain field (`name`) and a creation
//! timestamp. Validation runs strictly before persistence: a model whose
//! required fields are empty never reaches the store.

use vstd::prelude::*;

use crate::oid::{is_hex24, lemma_hex24_wf, spec_hex24, ObjectId};

verus! {

/// Whether `c` is one of the blank characters stripped from the ends of a
/// supplied name.
pub open spec fn is_blank(c: char) -> bool {
    c == ' ' || c == '\t' || c == '\n' || c == '\r'
}

/// `s` without its leading blanks.
pub open spec fn spec_trim_start(s: Seq<char>) -> Seq<char>
    decreases s.len(),
{
    if s.len() == 0 {
        s
    } else if is_blank(s[0]) {
        spec_trim_start(s.drop_first())
    } else {
        s
    }
}

/// `s` without its trailing blanks.
pub open spec fn spec_trim_end(s: Seq<char>) -> Seq<char>
    decreases s.len(),
{
    if s.len() == 0 {
        s
    } else if is_blank(s.last()) {
        spec_trim_end(s.drop_last())
    } else {
        s
    }
}

/// `s` without leading and trailing blanks.
pub open spec fn spec_trim(s: Seq<char>) -> Seq<char> {
    spec_trim_end(spec_trim_start(s))
}

proof fn lemma_trim_start_is_suffix(s: Seq<char>, i: int)
    requires
        0 <= i <= s.len(),
        forall|k: int| 0 <= k < i ==> is_blank(#[trigger] s[k]),
        i == s.len() || !is_blank(s[i]),
    ensures
        spec_trim_start(s) =~= s.subrange(i, s.len() as int),
    decreases i,
{
    if i == 0 {
        if s.len() == 0 {
        } else {
            assert(!is_blank(s[0]));
        }
    } else {
        assert(is_blank(s[0]));
        let t = s.drop_first();
        assert(t =~= s.subrange(1, s.len() as int));
        lemma_trim_start_is_suffix(t, i - 1);
        assert(spec_trim_start(s) == spec_trim_start(t));
        assert(t.subrange(i - 1, t.len() as int) =~= s.subrange(i, s.len() as int));
    }
}

proof fn lemma_trim_end_is_prefix(s: Seq<char>, j: int)
    requires
        0 <= j <= s.len(),
        forall|k: int| j <= k < s.len() ==> is_blank(#[trigger] s[k]),
        j == 0 || !is_blank(s[j - 1]),
    ensures
        spec_trim_end(s) =~= s.subrange(0, j),
    decreases s.len() - j,
{
    if j == s.len() {
        if s.len() == 0 {
        } else {
            assert(!is_blank(s.last()));
            assert(spec_trim_end(s) == s);
            assert(s =~= s.subrange(0, s.len() as int));
        }
    } else {
        assert(is_blank(s.last()));
        let t = s.drop_last();
        lemma_trim_end_is_prefix(t, j);
        assert(spec_trim_end(s) == spec_trim_end(t));
        assert(t.subrange(0, j) =~= s.subrange(0, j));
    }
}

proof fn lemma_trim_start_no_leading(s: Seq<char>)
    ensures
        spec_trim_start(s).len() > 0 ==> !is_blank(spec_trim_start(s)[0]),
    decreases s.len(),
{
    if s.len() == 0 {
    } else if is_blank(s[0]) {
        lemma_trim_start_no_leading(s.drop_first());
    }
}

proof fn lemma_trim_end_props(s: Seq<char>)
    ensures
        spec_trim_end(s).len() > 0 ==> !is_blank(spec_trim_end(s).last()),
        spec_trim_end(s).len() <= s.len(),
        forall|i: int| 0 <= i < spec_trim_end(s).len() ==> #[trigger] spec_trim_end(s)[i] == s[i],
    decreases s.len(),
{
    if s.len() == 0 {
    } else if is_blank(s.last()) {
        lemma_trim_end_props(s.drop_last());
        assert(forall|i: int| 0 <= i < s.len() - 1 ==> #[trigger] s.drop_last()[i] == s[i]);
    }
}

/// Trimming twice is trimming once.
pub proof fn lemma_trim_idempotent(s: Seq<char>)
    ensures
        spec_trim(spec_trim(s)) == spec_trim(s),
{
    let u = spec_trim_start(s);
    let t = spec_trim_end(u);
    if t.len() == 0 {
        assert(spec_trim_start(t) =~= t);
        assert(spec_trim_end(spec_trim_start(t)) =~= t);
    } else {
        lemma_trim_end_props(u);
        assert(!is_blank(t.last()));
        lemma_trim_start_no_leading(s);
        assert(t[0] == u[0]);
        assert(!is_blank(t[0]));
        assert(spec_trim_start(t) == t);
        assert(spec_trim_end(t) == t);
    }
}

/// Strips leading and trailing blanks from a string.
pub fn trim_str(s: &str) -> (r: &str)
    ensures
        r@ == spec_trim(s@),
{
    let n = s.unicode_len();
    let mut i: usize = 0;
    while i < n && is_blank_char(s.get_char(i))
        invariant
            0 <= i <= n,
            n == s@.len(),
            forall|k: int| 0 <= k < i ==> is_blank(#[trigger] s@[k]),
        decreases n - i,
    {
        i = i + 1;
    }
    let mut j: usize = n;
    while j > i && is_blank_char(s.get_char(j - 1))
        invariant
            i <= j <= n,
            n == s@.len(),
            forall|k: int| 0 <= k < i ==> is_blank(#[trigger] s@[k]),
            forall|k: int| j <= k < n ==> is_blank(#[trigger] s@[k]),
        decreases j,
    {
        j = j - 1;
    }
    let r = s.substring_char(i, j);
    proof {
        lemma_trim_start_is_suffix(s@, i as int);
        let t = s@.subrange(i as int, n as int);
        if j == i {
            lemma_trim_end_is_prefix(t, 0);
        } else {
            assert(!is_blank(s@[j - 1]));
            assert(t[j - i - 1] == s@[j - 1]);
            lemma_trim_end_is_prefix(t, j - i);
        }
        assert(t.subrange(0, j - i) =~= s@.subrange(i as int, j as int));
    }
    r
}

fn is_blank_char(c: char) -> (r: bool)
    ensures
        r == is_blank(c),
{
    c == ' ' || c == '\t' || c == '\n' || c == '\r'
}

/// A persisted entity. The identifier is `None` until the store assigns one
/// on creation; it is immutable thereafter. The owner reference scopes
/// almost every query so one identity cannot observe another's documents.
pub struct Model {
    pub id: Option<ObjectId>,
    pub owner: String,
    pub name: String,
    pub created_at: u64,
}

/// A model's required fields are present: the name is non-empty once
/// trimmed, and the owner reference is non-empty.
pub open spec fn spec_is_valid(m: Model) -> bool {
    spec_trim(m.name@).len() > 0 && m.owner@.len() > 0
}

impl Model {
    /// A fresh, unsaved model: no identifier yet.
    pub fn new(owner: String, name: String, created_at: u64) -> (m: Model)
        ensures
            m.id is None,
            m.owner == owner,
            m.name == name,
            m.created_at == created_at,
    {
        Model { id: None, owner, name, created_at }
    }

    /// Structural validation, run by the store before any write.
    pub fn validate(&self) -> (r: bool)
        ensures
            r == spec_is_valid(*self),
    {
        let trimmed = trim_str(self.name.as_str());
        !trimmed.is_empty() && !self.owner.as_str().is_empty()
    }
}

impl Clone for Model {
    fn clone(&self) -> (r: Self)
        ensures
            r == *self,
    {
        Model {
            id: self.id,
            owner: self.owner.clone(),
            name: self.name.clone(),
            created_at: self.created_at,
        }
    }
}

/// The client-facing projection of a stored model: the identifier rendered
/// as its 24 hex characters, the rest as stored.
pub struct PublicModel {
    pub id: String,
    pub owner: String,
    pub name: String,
    pub created_at: u64,
}

impl PublicModel {
    /// Projects a stored model. Only stored models have an identifier, so
    /// one is required here.
    pub fn of_model(m: &Model) -> (r: PublicModel)
        requires
            m.id is Some,
        ensures
            m.id matches Some(oid) && r.id@ == spec_hex24(oid),
            is_hex24(r.id@),
            r.owner@ == m.owner@,
            r.name@ == m.name@,
            r.created_at == m.created_at,
    {
        let oid = m.id.unwrap();
        proof {
            lemma_hex24_wf(oid);
        }
        PublicModel {
            id: oid.to_hex(),
            owner: m.owner.clone(),
            name: m.name.clone(),
            created_at: m.created_at,
        }
    }
}

} // verus!
