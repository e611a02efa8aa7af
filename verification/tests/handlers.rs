use docstore::cats::{
    create_cat, get_cat_by_id, query_cats, remove_cat_by_id, update_cat_by_id,
};
use docstore::errors::Error;
use docstore::pagination::Pagination;
use docstore::store::Store;

#[test]
fn create_rejects_blank_names_before_the_store() {
    let mut store = Store::new();
    match create_cat(&mut store, "u1", "   \t".to_string(), 1) {
        Err(Error::BadRequest { .. }) => {}
        _ => panic!("expected BadRequest"),
    }
    let listing = query_cats(&store, "u1", &Pagination { offset: None, limit: None }).unwrap();
    assert_eq!(listing.pagination.unwrap().count, 0);
}

#[test]
fn create_returns_a_valid_hex_id_and_trimmed_name() {
    let mut store = Store::new();
    let resp = create_cat(&mut store, "u1", "  Rex ".to_string(), 42).unwrap();
    assert_eq!(resp.status_code, 201);
    assert!(resp.pagination.is_none());
    let body = resp.body.unwrap();
    assert!(is_hex24_str(&body.id));
    assert_eq!(body.owner, "u1");
    assert_eq!(body.name, "Rex");
    assert_eq!(body.created_at, 42);
}

#[test]
fn scenario_create_list_update_delete() {
    // insert {owner:"u1", name:"Rex"}
    let mut store = Store::new();
    let created = create_cat(&mut store, "u1", "Rex".to_string(), 7)
        .unwrap()
        .body
        .unwrap();
    assert!(is_hex24_str(&created.id));
    assert_eq!(created.owner, "u1");
    assert_eq!(created.name, "Rex");
    assert_eq!(created.created_at, 7);

    // findAndCount({owner:"u1"}, {skip:0, limit:20}) -> ([that document], 1)
    let listing = query_cats(
        &store,
        "u1",
        &Pagination { offset: Some(0), limit: Some(20) },
    )
    .unwrap();
    let pg = listing.pagination.unwrap();
    assert_eq!(pg.count, 1);
    assert_eq!(pg.offset, 0);
    assert_eq!(pg.limit, 20);
    let page = listing.body.unwrap();
    assert_eq!(page.len(), 1);
    assert_eq!(page[0].id, created.id);
    assert_eq!(page[0].name, "Rex");

    // findOneAndUpdate({id, owner:"u1"}, {name:"Max"}) -> {..., name:"Max"}
    let updated = update_cat_by_id(&mut store, "u1", &created.id, "Max".to_string())
        .unwrap()
        .body
        .unwrap();
    assert_eq!(updated.id, created.id);
    assert_eq!(updated.name, "Max");
    assert_eq!(updated.created_at, created.created_at);

    // deleteOne({id, owner:"u1"}) -> deleted-count 1 (204, no body)
    let gone = remove_cat_by_id(&mut store, "u1", &created.id).unwrap();
    assert_eq!(gone.status_code, 204);
    assert!(gone.body.is_none());

    // a subsequent findById(id) returns None
    let oid = docstore::oid::to_object_id(&created.id).unwrap();
    assert!(store.find_by_id(&oid).unwrap().is_none());
}

fn is_hex24_str(s: &str) -> bool {
    let chars: Vec<char> = s.chars().collect();
    chars.len() == 24
        && chars
            .iter()
            .all(|c| ('0'..='9').contains(c) || ('a'..='f').contains(c))
}

#[test]
fn listing_pages_are_newest_first_and_clamped() {
    let mut store = Store::new();
    for i in 0..7u64 {
        create_cat(&mut store, "u1", format!("cat{}", i), i).unwrap();
    }
    let listing = query_cats(
        &store,
        "u1",
        &Pagination { offset: Some(-4), limit: Some(3) },
    )
    .unwrap();
    let pg = listing.pagination.unwrap();
    assert_eq!(pg.count, 7);
    assert_eq!(pg.offset, 0);
    assert_eq!(pg.limit, 3);
    let page = listing.body.unwrap();
    assert_eq!(page.len(), 3);
    assert_eq!(page[0].name, "cat6");
    assert_eq!(page[1].name, "cat5");
    assert_eq!(page[2].name, "cat4");
}

#[test]
fn listing_only_shows_the_callers_documents() {
    let mut store = Store::new();
    create_cat(&mut store, "u1", "mine".to_string(), 1).unwrap();
    create_cat(&mut store, "u2", "theirs".to_string(), 2).unwrap();
    let listing = query_cats(&store, "u1", &Pagination { offset: None, limit: None }).unwrap();
    assert_eq!(listing.pagination.unwrap().count, 1);
    let page = listing.body.unwrap();
    assert_eq!(page.len(), 1);
    assert_eq!(page[0].name, "mine");
}

#[test]
fn get_by_id_is_owner_scoped() {
    let mut store = Store::new();
    let created = create_cat(&mut store, "u1", "Rex".to_string(), 1)
        .unwrap()
        .body
        .unwrap();
    let ok = get_cat_by_id(&store, "u1", &created.id).unwrap();
    assert_eq!(ok.status_code, 200);
    assert_eq!(ok.body.unwrap().name, "Rex");
    // another identity cannot see it: NotFound, not the document
    match get_cat_by_id(&store, "u2", &created.id) {
        Err(Error::NotFound { .. }) => {}
        _ => panic!("expected NotFound for a foreign owner"),
    }
}

#[test]
fn get_by_id_rejects_malformed_ids() {
    let store = Store::new();
    match get_cat_by_id(&store, "u1", "not-a-hex-id") {
        Err(Error::BadRequest { .. }) => {}
        _ => panic!("expected BadRequest"),
    }
}

#[test]
fn remove_translates_zero_deletions_into_not_found() {
    let mut store = Store::new();
    match remove_cat_by_id(&mut store, "u1", "0000000000000000000000ff") {
        Err(Error::NotFound { .. }) => {}
        _ => panic!("expected NotFound"),
    }
}

#[test]
fn update_rejects_blank_names_and_missing_documents() {
    let mut store = Store::new();
    let created = create_cat(&mut store, "u1", "Rex".to_string(), 1)
        .unwrap()
        .body
        .unwrap();
    match update_cat_by_id(&mut store, "u1", &created.id, "  ".to_string()) {
        Err(Error::BadRequest { .. }) => {}
        _ => panic!("expected BadRequest"),
    }
    match update_cat_by_id(&mut store, "u1", "zz", "Max".to_string()) {
        Err(Error::BadRequest { .. }) => {}
        _ => panic!("expected BadRequest"),
    }
    match update_cat_by_id(&mut store, "u2", &created.id, "Max".to_string()) {
        Err(Error::NotFound { .. }) => {}
        _ => panic!("expected NotFound for a foreign owner"),
    }
    // the document is untouched by the failures above
    let still = get_cat_by_id(&store, "u1", &created.id).unwrap().body.unwrap();
    assert_eq!(still.name, "Rex");
}

