use docstore::errors::Error;
use docstore::pagination::{resolve_limit, resolve_offset, Pagination};
use docstore::response::{CustomResponseBuilder, ResponsePagination};

#[test]
fn limit_defaults_to_twenty_when_absent() {
    assert_eq!(resolve_limit(None), 20);
}

#[test]
fn limit_clamps_low_values_to_one() {
    assert_eq!(resolve_limit(Some(0)), 1);
    assert_eq!(resolve_limit(Some(-5)), 1);
    assert_eq!(resolve_limit(Some(1)), 1);
    assert_eq!(resolve_limit(Some(i64::MIN)), 1);
}

#[test]
fn limit_clamps_high_values_to_hundred() {
    assert_eq!(resolve_limit(Some(100)), 100);
    assert_eq!(resolve_limit(Some(101)), 100);
    assert_eq!(resolve_limit(Some(i64::MAX)), 100);
}

#[test]
fn limit_in_range_passes_through() {
    assert_eq!(resolve_limit(Some(42)), 42);
    assert_eq!(resolve_limit(Some(2)), 2);
    assert_eq!(resolve_limit(Some(99)), 99);
}

#[test]
fn offset_floors_to_zero() {
    assert_eq!(resolve_offset(None), 0);
    assert_eq!(resolve_offset(Some(-1)), 0);
    assert_eq!(resolve_offset(Some(i64::MIN)), 0);
    assert_eq!(resolve_offset(Some(0)), 0);
    assert_eq!(resolve_offset(Some(7)), 7);
}

#[test]
fn pagination_resolve_combines_both() {
    let p = Pagination { offset: Some(-3), limit: Some(250) };
    let r = p.resolve();
    assert_eq!(r.offset, 0);
    assert_eq!(r.limit, 100);
}

#[test]
fn status_codes_follow_the_taxonomy() {
    assert_eq!(Error::NotFound { detail: None }.status_code(), 404);
    assert_eq!(Error::BadRequest { detail: None }.status_code(), 400);
    assert_eq!(Error::Conflict { detail: None }.status_code(), 409);
    assert_eq!(Error::StoreFailure { detail: None }.status_code(), 500);
    assert_eq!(Error::SerializationFailure { detail: None }.status_code(), 500);
}

#[test]
fn infrastructure_detail_is_not_shown_to_clients() {
    let e = Error::store_failure(String::from("socket reset by peer"));
    assert_eq!(e.status_code(), 500);
    assert!(e.client_detail().is_none());
    let s = Error::serialization_failure(String::from("missing field"));
    assert!(s.client_detail().is_none());
}

#[test]
fn client_fixable_detail_is_shown() {
    let e = Error::bad_request("name is required");
    assert_eq!(e.status_code(), 400);
    assert_eq!(e.client_detail().unwrap(), "name is required");
    let n = Error::not_found();
    assert!(n.client_detail().is_none());
}

#[test]
fn envelope_defaults_and_setters() {
    let r = CustomResponseBuilder::<u32>::new().build();
    assert_eq!(r.status_code, 200);
    assert!(r.body.is_none());
    assert!(r.pagination.is_none());

    let r2 = CustomResponseBuilder::new()
        .status_code(201)
        .body(7u32)
        .build();
    assert_eq!(r2.status_code, 201);
    assert_eq!(r2.body, Some(7));
    assert!(r2.pagination.is_none());

    let r3 = CustomResponseBuilder::new()
        .body(vec![1u32, 2])
        .pagination(ResponsePagination { count: 9, offset: 0, limit: 20 })
        .build();
    let pg = r3.pagination.unwrap();
    assert_eq!(pg.count, 9);
    assert_eq!(pg.offset, 0);
    assert_eq!(pg.limit, 20);
}
