//! Query specifications: a filter (a key/value predicate set over the
//! model's fields), an update (set-field semantics), and the options a read
//! carries (sort, skip, limit).

use vstd::prelude::*;

use crate::model::Model;
use crate::oid::ObjectId;

verus! {

/// A filter: each present field must be equal on a matching document. An
/// identity-scoped lookup sets both `id` and `owner` — never `id` alone —
/// so one identity cannot reach another's documents.
pub struct Filter {
    pub id: Option<ObjectId>,
    pub owner: Option<String>,
    pub name: Option<String>,
}

/// The mathematical content of a filter: the same predicate set over
/// plain values.
pub struct FilterView {
    pub id: Option<ObjectId>,
    pub owner: Option<Seq<char>>,
    pub name: Option<Seq<char>>,
}

impl View for Filter {
    type V = FilterView;

    open spec fn view(&self) -> FilterView {
        FilterView {
            id: self.id,
            owner: match self.owner {
                Some(o) => Some(o@),
                None => None,
            },
            name: match self.name {
                Some(n) => Some(n@),
                None => None,
            },
        }
    }
}

/// Whether `m` satisfies every predicate `f` carries.
pub open spec fn spec_matches(f: FilterView, m: Model) -> bool {
    &&& (f.id matches Some(i) ==> m.id == Some(i))
    &&& (f.owner matches Some(o) ==> m.owner@ == o)
    &&& (f.name matches Some(n) ==> m.name@ == n)
}

impl Filter {
    /// The empty filter: matches every document.
    pub fn all() -> (r: Filter)
        ensures
            r@ == (FilterView { id: None, owner: None, name: None }),
            forall|m: Model| spec_matches(r@, m),
    {
        Filter { id: None, owner: None, name: None }
    }

    /// Matches the documents of one owner.
    pub fn by_owner(owner: String) -> (r: Filter)
        ensures
            r@ == (FilterView { id: None, owner: Some(owner@), name: None }),
            forall|m: Model| #[trigger] spec_matches(r@, m) <==> m.owner@ == owner@,
    {
        Filter { id: None, owner: Some(owner), name: None }
    }

    /// Matches one document of one owner: the identity-scoped point lookup.
    pub fn by_id_and_owner(id: ObjectId, owner: String) -> (r: Filter)
        ensures
            r@ == (FilterView { id: Some(id), owner: Some(owner@), name: None }),
            forall|m: Model|
                #[trigger] spec_matches(r@, m) <==> (m.id == Some(id) && m.owner@ == owner@),
    {
        Filter { id: Some(id), owner: Some(owner), name: None }
    }

    /// Matches by identifier alone. Point lookups that need tenant
    /// isolation must use [`Filter::by_id_and_owner`] instead.
    pub fn by_id(id: ObjectId) -> (r: Filter)
        ensures
            r@ == (FilterView { id: Some(id), owner: None, name: None }),
            forall|m: Model| #[trigger] spec_matches(r@, m) <==> m.id == Some(id),
    {
        Filter { id: Some(id), owner: None, name: None }
    }

    /// Whether `m` matches this filter.
    pub fn matches(&self, m: &Model) -> (r: bool)
        ensures
            r == spec_matches(self@, *m),
    {
        let id_ok = match &self.id {
            Some(i) => match &m.id {
                Some(mi) => *i == *mi,
                None => false,
            },
            None => true,
        };
        let owner_ok = match &self.owner {
            Some(o) => *o == m.owner,
            None => true,
        };
        let name_ok = match &self.name {
            Some(n) => *n == m.name,
            None => true,
        };
        id_ok && owner_ok && name_ok
    }
}

impl Clone for Filter {
    fn clone(&self) -> (r: Self)
        ensures
            r@ == self@,
    {
        Filter {
            id: self.id,
            owner: match &self.owner {
                Some(o) => Some(o.clone()),
                None => None,
            },
            name: match &self.name {
                Some(n) => Some(n.clone()),
                None => None,
            },
        }
    }
}

/// An update with set-field semantics: each present field replaces the
/// document's value; absent fields are left as they are. The identifier
/// and the creation timestamp are never touched by an update.
pub struct ModelUpdate {
    pub name: Option<String>,
}

/// The post-update state of `m` under `u`.
pub open spec fn spec_apply(u: ModelUpdate, m: Model) -> Model {
    Model {
        name: match u.name {
            Some(n) => n,
            None => m.name,
        },
        ..m
    }
}

impl ModelUpdate {
    /// An update that sets the name.
    pub fn set_name(name: String) -> (r: ModelUpdate)
        ensures
            r.name matches Some(n) && n@ == name@,
    {
        ModelUpdate { name: Some(name) }
    }

    /// The empty update: leaves a document as it is.
    pub fn none() -> (r: ModelUpdate)
        ensures
            r.name is None,
            forall|m: Model| #[trigger] spec_apply(r, m) == m,
    {
        ModelUpdate { name: None }
    }

    /// Applies the update to one document.
    pub fn apply(&self, m: &Model) -> (r: Model)
        ensures
            r == spec_apply(*self, *m),
    {
        Model {
            id: m.id,
            owner: m.owner.clone(),
            name: match &self.name {
                Some(n) => n.clone(),
                None => m.name.clone(),
            },
            created_at: m.created_at,
        }
    }
}

/// Options a filtered read carries: an optional newest-first ordering, an
/// optional number of leading matches to skip, and an optional cap on how
/// many to return.
pub struct FindOptions {
    pub sort_created_desc: bool,
    pub skip: Option<u64>,
    pub limit: Option<u64>,
}

impl FindOptions {
    /// No ordering, no skip, no limit: every match in creation order.
    pub fn all() -> (r: FindOptions)
        ensures
            !r.sort_created_desc,
            r.skip is None,
            r.limit is None,
    {
        FindOptions { sort_created_desc: false, skip: None, limit: None }
    }

    /// The options a paginated read uses: newest first, then skip and
    /// limit, both already resolved.
    pub fn page(skip: u64, limit: u64) -> (r: FindOptions)
        ensures
            r.sort_created_desc,
            r.skip == Some(skip),
            r.limit == Some(limit),
    {
        FindOptions { sort_created_desc: true, skip: Some(skip), limit: Some(limit) }
    }
}

} // verus!
