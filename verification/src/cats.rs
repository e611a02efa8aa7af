//! The request-handler cores for the `cats` resource: each takes the
//! authenticated identity (an opaque owner reference), the plain values of
//! the request, and the store, and returns either a response envelope or a
//! classified error. Every identity-scoped operation filters by both
//! identifier and owner — never by identifier alone.

use vstd::prelude::*;
use vstd::string::StringExecFns;

use crate::errors::Error;
use crate::model::{lemma_trim_idempotent, spec_trim, trim_str, Model, PublicModel};
use crate::oid::{is_hex24, spec_hex24, spec_oid_of, to_object_id};
use crate::pagination::{spec_resolved_limit, spec_resolved_offset, Pagination};
use crate::query::{Filter, FilterView, FindOptions, ModelUpdate};
use crate::response::{CustomResponse, CustomResponseBuilder, ResponsePagination};
use crate::store::{
    lemma_first_match, spec_filtered, spec_first_match_idx, spec_has_match, spec_page, Store,
};

verus! {

/// The identity-scoped point filter a handler uses for one document.
pub open spec fn spec_scoped_filter(id: Seq<char>, owner: Seq<char>) -> FilterView {
    FilterView { id: Some(spec_oid_of(id)), owner: Some(owner), name: None }
}

/// The filter a paginated listing uses: every document of one owner.
pub open spec fn spec_owner_filter(owner: Seq<char>) -> FilterView {
    FilterView { id: None, owner: Some(owner), name: None }
}

/// Creates a document for the authenticated identity. The supplied name is
/// trimmed; an empty name or an empty identity is rejected as `BadRequest`
/// before the store is touched. On success the envelope carries status 201
/// and the stored document, its identifier rendered as 24 hex characters.
pub fn create_cat(store: &mut Store, user_id: &str, name: String, now: u64) -> (r: Result<
    CustomResponse<PublicModel>,
    Error,
>)
    requires
        old(store).wf(),
    ensures
        final(store).wf(),
        spec_trim(name@).len() == 0 ==> (r matches Err(e) && e matches Error::BadRequest { .. }
            && *final(store) == *old(store)),
        spec_trim(name@).len() > 0 && user_id@.len() == 0 ==> (r matches Err(e)
            && e matches Error::BadRequest { .. } && *final(store) == *old(store)),
        spec_trim(name@).len() > 0 && user_id@.len() > 0 && old(store).ids_assigned() == u64::MAX
            ==> (r matches Err(e) && e matches Error::StoreFailure { .. } && *final(store) == *old(
            store,
        )),
        spec_trim(name@).len() > 0 && user_id@.len() > 0 && old(store).ids_assigned() < u64::MAX
            ==> (r matches Ok(resp) && {
            let stored = final(store)@.last();
            &&& final(store)@ =~= old(store)@.push(stored)
            &&& stored.id is Some
            &&& forall|i: int|
                0 <= i < old(store)@.len() ==> (#[trigger] old(store)@[i]).id != stored.id
            &&& stored.owner@ == user_id@
            &&& stored.name@ == spec_trim(name@)
            &&& stored.created_at == (if now >= old(store).write_clock() {
                now
            } else {
                old(store).write_clock()
            })
            &&& resp.status_code == 201
            &&& resp.pagination is None
            &&& resp.body matches Some(p) && p.id@ == spec_hex24(stored.id.unwrap()) && is_hex24(
                p.id@,
            ) && p.owner@ == user_id@ && p.name@ == spec_trim(name@) && p.created_at
                == stored.created_at
        }),
{
    let trimmed = trim_str(name.as_str());
    if trimmed.is_empty() {
        return Err(Error::bad_request("name is required"));
    }
    if user_id.is_empty() {
        return Err(Error::bad_request("owner is required"));
    }
    let model = Model::new(user_id.to_owned(), trimmed.to_owned(), now);
    proof {
        lemma_trim_idempotent(name@);
    }
    let created = match store.create(model) {
        Ok(m) => m,
        Err(e) => {
            return Err(e);
        },
    };
    let body = PublicModel::of_model(&created);
    let res = CustomResponseBuilder::new().status_code(201).body(body).build();
    Ok(res)
}

/// Lists the authenticated identity's documents, newest first, under the
/// resolved pagination: the limit clamped to `[1, 100]` (default 20), the
/// offset floored to 0. The envelope carries the page beside metadata
/// whose count reflects every match of the owner filter, not just the
/// returned slice.
pub fn query_cats(store: &Store, user_id: &str, pagination: &Pagination) -> (r: Result<
    CustomResponse<Vec<PublicModel>>,
    Error,
>)
    requires
        store.wf(),
    ensures
        r matches Ok(resp) && {
            let fv = spec_owner_filter(user_id@);
            let skip = spec_resolved_offset(pagination.offset);
            let limit = spec_resolved_limit(pagination.limit);
            let o = FindOptions {
                sort_created_desc: true,
                skip: Some(skip),
                limit: Some(limit),
            };
            let page = spec_page(store@, fv, o);
            &&& resp.status_code == 200
            &&& resp.pagination matches Some(pg) && pg.count == spec_filtered(store@, fv).len()
                && pg.offset == skip && pg.limit == limit
            &&& resp.body matches Some(list) && list@.len() == page.len() && (forall|k: int|
                0 <= k < page.len() ==> {
                    let m = #[trigger] page[k];
                    let p = list@[k];
                    &&& p.id@ == spec_hex24(m.id.unwrap())
                    &&& p.owner@ == m.owner@
                    &&& p.name@ == m.name@
                    &&& p.created_at == m.created_at
                })
        },
{
    let resolved = pagination.resolve();
    let filter = Filter::by_owner(user_id.to_owned());
    let options = FindOptions::page(resolved.offset, resolved.limit);
    let (cats, count) = match store.find_and_count(&filter, &options) {
        Ok(pc) => pc,
        Err(e) => {
            return Err(e);
        },
    };
    let mut list: Vec<PublicModel> = Vec::new();
    let mut i: usize = 0;
    while i < cats.len()
        invariant
            0 <= i <= cats@.len(),
            list@.len() == i,
            forall|k: int| 0 <= k < cats@.len() ==> (#[trigger] cats@[k]).id is Some,
            forall|k: int|
                0 <= k < i ==> {
                    let m = #[trigger] cats@[k];
                    let p = list@[k];
                    &&& p.id@ == spec_hex24(m.id.unwrap())
                    &&& p.owner@ == m.owner@
                    &&& p.name@ == m.name@
                    &&& p.created_at == m.created_at
                },
        decreases cats@.len() - i,
    {
        list.push(PublicModel::of_model(&cats[i]));
        i = i + 1;
    }
    let res = CustomResponseBuilder::new().body(list).pagination(
        ResponsePagination { count, offset: resolved.offset, limit: resolved.limit },
    ).build();
    Ok(res)
}

/// Fetches one of the authenticated identity's documents by its rendered
/// identifier. A malformed identifier is `BadRequest` before any store
/// call; a missing document is `NotFound`.
pub fn get_cat_by_id(store: &Store, user_id: &str, id: &str) -> (r: Result<
    CustomResponse<PublicModel>,
    Error,
>)
    requires
        store.wf(),
    ensures
        ({
            let fv = spec_scoped_filter(id@, user_id@);
            match r {
                Ok(resp) => {
                    let m = store@[spec_first_match_idx(store@, fv)];
                    &&& is_hex24(id@)
                    &&& spec_has_match(store@, fv)
                    &&& resp.status_code == 200
                    &&& resp.pagination is None
                    &&& resp.body matches Some(p) && p.id@ == id@ && p.owner@ == user_id@
                        && p.name@ == m.name@ && p.created_at == m.created_at
                },
                Err(e) => (!is_hex24(id@) && e matches Error::BadRequest { .. }) || (is_hex24(id@)
                    && !spec_has_match(store@, fv) && e matches Error::NotFound { .. }),
            }
        }),
{
    let oid = match to_object_id(id) {
        Ok(o) => o,
        Err(e) => {
            return Err(e);
        },
    };
    let filter = Filter::by_id_and_owner(oid, user_id.to_owned());
    let found = match store.find_one(&filter) {
        Ok(o) => o,
        Err(e) => {
            return Err(e);
        },
    };
    match found {
        Some(m) => {
            proof {
                lemma_first_match(store@, filter@);
            }
            let body = PublicModel::of_model(&m);
            proof {
                crate::oid::lemma_oid_of_hex24(id@);
            }
            let res = CustomResponseBuilder::new().body(body).build();
            Ok(res)
        },
        None => Err(Error::not_found()),
    }
}

/// Deletes one of the authenticated identity's documents by its rendered
/// identifier. A malformed identifier is `BadRequest`; a deleted count of
/// zero is translated here, at the handler level, into `NotFound`. On
/// success the envelope carries status 204 and no body.
pub fn remove_cat_by_id(store: &mut Store, user_id: &str, id: &str) -> (r: Result<
    CustomResponse<()>,
    Error,
>)
    requires
        old(store).wf(),
    ensures
        final(store).wf(),
        ({
            let fv = spec_scoped_filter(id@, user_id@);
            match r {
                Ok(resp) => {
                    &&& is_hex24(id@)
                    &&& spec_has_match(old(store)@, fv)
                    &&& final(store)@ =~= old(store)@.remove(
                        spec_first_match_idx(old(store)@, fv),
                    )
                    &&& resp.status_code == 204
                    &&& resp.body is None
                    &&& resp.pagination is None
                },
                Err(e) => {
                    &&& *final(store) == *old(store)
                    &&& (!is_hex24(id@) && e matches Error::BadRequest { .. }) || (is_hex24(id@)
                        && !spec_has_match(old(store)@, fv) && e matches Error::NotFound { .. })
                },
            }
        }),
{
    let oid = match to_object_id(id) {
        Ok(o) => o,
        Err(e) => {
            return Err(e);
        },
    };
    let filter = Filter::by_id_and_owner(oid, user_id.to_owned());
    let outcome = match store.delete_one(&filter) {
        Ok(o) => o,
        Err(e) => {
            return Err(e);
        },
    };
    if outcome.deleted_count == 0 {
        return Err(Error::not_found());
    }
    let res = CustomResponseBuilder::new().status_code(204).build();
    Ok(res)
}

/// Renames one of the authenticated identity's documents, atomically, and
/// returns the post-update state — never the pre-update one. An empty
/// trimmed name or a malformed identifier is `BadRequest` before any store
/// call; no match is `NotFound`.
pub fn update_cat_by_id(store: &mut Store, user_id: &str, id: &str, name: String) -> (r: Result<
    CustomResponse<PublicModel>,
    Error,
>)
    requires
        old(store).wf(),
    ensures
        final(store).wf(),
        ({
            let fv = spec_scoped_filter(id@, user_id@);
            let i = spec_first_match_idx(old(store)@, fv);
            match r {
                Ok(resp) => {
                    &&& spec_trim(name@).len() > 0
                    &&& is_hex24(id@)
                    &&& spec_has_match(old(store)@, fv)
                    &&& final(store)@.len() == old(store)@.len()
                    &&& forall|j: int|
                        0 <= j < old(store)@.len() && j != i ==> final(store)@[j] == old(
                            store,
                        )@[j]
                    &&& final(store)@[i].id == old(store)@[i].id
                    &&& final(store)@[i].owner == old(store)@[i].owner
                    &&& final(store)@[i].created_at == old(store)@[i].created_at
                    &&& final(store)@[i].name@ == spec_trim(name@)
                    &&& resp.status_code == 200
                    &&& resp.pagination is None
                    &&& resp.body matches Some(p) && p.id@ == id@ && p.owner@ == user_id@
                        && p.name@ == spec_trim(name@) && p.created_at == old(
                        store,
                    )@[i].created_at
                },
                Err(e) => {
                    &&& *final(store) == *old(store)
                    &&& (spec_trim(name@).len() == 0 && e matches Error::BadRequest { .. }) || (
                    spec_trim(name@).len() > 0 && !is_hex24(id@) && e matches Error::BadRequest {
                        ..
                    }) || (spec_trim(name@).len() > 0 && is_hex24(id@) && !spec_has_match(
                        old(store)@,
                        fv,
                    ) && e matches Error::NotFound { .. })
                },
            }
        }),
{
    let trimmed = trim_str(name.as_str());
    if trimmed.is_empty() {
        return Err(Error::bad_request("name is required"));
    }
    let oid = match to_object_id(id) {
        Ok(o) => o,
        Err(e) => {
            return Err(e);
        },
    };
    let filter = Filter::by_id_and_owner(oid, user_id.to_owned());
    let update = ModelUpdate::set_name(trimmed.to_owned());
    let found = match store.find_one_and_update(&filter, &update) {
        Ok(o) => o,
        Err(e) => {
            return Err(e);
        },
    };
    match found {
        Some(m) => {
            proof {
                lemma_first_match(old(store)@, filter@);
                crate::oid::lemma_oid_of_hex24(id@);
            }
            let body = PublicModel::of_model(&m);
            let res = CustomResponseBuilder::new().body(body).build();
            Ok(res)
        },
        None => Err(Error::not_found()),
    }
}

} // verus!
