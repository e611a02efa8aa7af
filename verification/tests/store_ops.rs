use docstore::errors::Error;
use docstore::model::Model;
use docstore::query::{Filter, FindOptions, ModelUpdate};
use docstore::store::{Stage, Store};

fn seed(store: &mut Store, owner: &str, name: &str, now: u64) -> Model {
    store
        .create(Model::new(owner.to_string(), name.to_string(), now))
        .unwrap()
}

#[test]
fn create_validates_before_persisting() {
    let mut store = Store::new();
    let r = store.create(Model::new("u1".to_string(), "   ".to_string(), 1));
    match r {
        Err(Error::BadRequest { .. }) => {}
        _ => panic!("expected BadRequest"),
    }
    // the invalid model never reached the store
    let c = store.count(&Filter::all()).unwrap();
    assert_eq!(c, 0);
}

#[test]
fn create_assigns_distinct_ids_and_keeps_fields() {
    let mut store = Store::new();
    let a = seed(&mut store, "u1", "Rex", 10);
    let b = seed(&mut store, "u1", "Max", 11);
    assert_eq!(a.owner, "u1");
    assert_eq!(a.name, "Rex");
    assert_eq!(a.created_at, 10);
    assert!(a.id.is_some());
    assert!(b.id.is_some());
    assert_ne!(a.id.unwrap(), b.id.unwrap());
}

#[test]
fn write_clock_keeps_creation_order() {
    let mut store = Store::new();
    let a = seed(&mut store, "u1", "first", 50);
    // a later write handing in an earlier time is clamped up to the clock
    let b = seed(&mut store, "u1", "second", 30);
    assert_eq!(a.created_at, 50);
    assert_eq!(b.created_at, 50);
    let c = seed(&mut store, "u1", "third", 60);
    assert_eq!(c.created_at, 60);
}

#[test]
fn count_and_exists_follow_the_filter() {
    let mut store = Store::new();
    seed(&mut store, "u1", "Rex", 1);
    seed(&mut store, "u2", "Max", 2);
    seed(&mut store, "u1", "Blue", 3);
    assert_eq!(store.count(&Filter::by_owner("u1".to_string())).unwrap(), 2);
    assert_eq!(store.count(&Filter::by_owner("u2".to_string())).unwrap(), 1);
    assert_eq!(store.count(&Filter::by_owner("u3".to_string())).unwrap(), 0);
    assert!(store.exists_match(&Filter::by_owner("u1".to_string())).unwrap());
    assert!(!store.exists_match(&Filter::by_owner("u3".to_string())).unwrap());
}

#[test]
fn find_returns_first_match_in_stored_order() {
    let mut store = Store::new();
    seed(&mut store, "u1", "Rex", 1);
    seed(&mut store, "u1", "Max", 2);
    let first = store
        .find_one(&Filter::by_owner("u1".to_string()))
        .unwrap()
        .unwrap();
    assert_eq!(first.name, "Rex");
}

#[test]
fn find_pages_newest_first() {
    let mut store = Store::new();
    seed(&mut store, "u1", "a", 1);
    seed(&mut store, "u1", "b", 2);
    seed(&mut store, "u2", "x", 3);
    seed(&mut store, "u1", "c", 4);
    let opts = FindOptions::page(0, 2);
    let page = store
        .find(&Filter::by_owner("u1".to_string()), &opts)
        .unwrap();
    assert_eq!(page.len(), 2);
    assert_eq!(page[0].name, "c");
    assert_eq!(page[1].name, "b");
    let opts2 = FindOptions::page(2, 2);
    let page2 = store
        .find(&Filter::by_owner("u1".to_string()), &opts2)
        .unwrap();
    assert_eq!(page2.len(), 1);
    assert_eq!(page2[0].name, "a");
}

#[test]
fn find_and_count_counts_all_matches_independent_of_the_page() {
    let mut store = Store::new();
    for (i, name) in ["a", "b", "c", "d", "e"].iter().enumerate() {
        seed(&mut store, "u1", name, i as u64);
    }
    seed(&mut store, "u2", "other", 9);
    let opts = FindOptions::page(1, 2);
    let (page, count) = store
        .find_and_count(&Filter::by_owner("u1".to_string()), &opts)
        .unwrap();
    assert_eq!(count, 5);
    assert!(page.len() <= 2);
    assert_eq!(page.len(), 2);
    // offset + len(page) <= count
    assert!(1 + page.len() as u64 <= count);
    // newest first, skipping the newest one
    assert_eq!(page[0].name, "d");
    assert_eq!(page[1].name, "c");
}

#[test]
fn page_is_empty_when_count_at_most_offset() {
    let mut store = Store::new();
    seed(&mut store, "u1", "only", 1);
    let opts = FindOptions::page(5, 20);
    let (page, count) = store
        .find_and_count(&Filter::by_owner("u1".to_string()), &opts)
        .unwrap();
    assert_eq!(count, 1);
    assert!(page.is_empty());
}

#[test]
fn find_one_and_update_returns_post_update_state() {
    let mut store = Store::new();
    let created = seed(&mut store, "u1", "Rex", 1);
    let filter = Filter::by_id_and_owner(created.id.unwrap(), "u1".to_string());
    let updated = store
        .find_one_and_update(&filter, &ModelUpdate::set_name("Max".to_string()))
        .unwrap()
        .unwrap();
    assert_eq!(updated.name, "Max");
    assert_eq!(updated.owner, "u1");
    assert_eq!(updated.created_at, created.created_at);
    assert_eq!(updated.id, created.id);
    // the store now holds the updated document
    let fetched = store.find_one(&filter).unwrap().unwrap();
    assert_eq!(fetched.name, "Max");
}

#[test]
fn find_one_and_update_zero_match_is_none_not_an_error() {
    let mut store = Store::new();
    seed(&mut store, "u1", "Rex", 1);
    let other = Filter::by_owner("nobody".to_string());
    let r = store
        .find_one_and_update(&other, &ModelUpdate::set_name("Max".to_string()))
        .unwrap();
    assert!(r.is_none());
    // untouched
    assert_eq!(store.count(&Filter::all()).unwrap(), 1);
}

#[test]
fn update_one_reports_matched_and_modified() {
    let mut store = Store::new();
    seed(&mut store, "u1", "Rex", 1);
    let f = Filter::by_owner("u1".to_string());
    let out = store
        .update_one(&f, &ModelUpdate::set_name("Rex".to_string()))
        .unwrap();
    assert_eq!(out.matched_count, 1);
    assert_eq!(out.modified_count, 0); // same value: nothing changed
    let out2 = store
        .update_one(&f, &ModelUpdate::set_name("Max".to_string()))
        .unwrap();
    assert_eq!(out2.matched_count, 1);
    assert_eq!(out2.modified_count, 1);
    let none = store
        .update_one(&Filter::by_owner("u9".to_string()), &ModelUpdate::none())
        .unwrap();
    assert_eq!(none.matched_count, 0);
    assert_eq!(none.modified_count, 0);
}

#[test]
fn update_many_touches_every_match() {
    let mut store = Store::new();
    seed(&mut store, "u1", "a", 1);
    seed(&mut store, "u2", "b", 2);
    seed(&mut store, "u1", "c", 3);
    let out = store
        .update_many(
            &Filter::by_owner("u1".to_string()),
            &ModelUpdate::set_name("renamed".to_string()),
        )
        .unwrap();
    assert_eq!(out.matched_count, 2);
    assert_eq!(out.modified_count, 2);
    let all = store
        .find(&Filter::by_owner("u1".to_string()), &FindOptions::all())
        .unwrap();
    assert!(all.iter().all(|m| m.name == "renamed"));
    let untouched = store
        .find_one(&Filter::by_owner("u2".to_string()))
        .unwrap()
        .unwrap();
    assert_eq!(untouched.name, "b");
}

#[test]
fn delete_one_zero_match_reports_zero_without_error() {
    let mut store = Store::new();
    seed(&mut store, "u1", "Rex", 1);
    let out = store
        .delete_one(&Filter::by_owner("ghost".to_string()))
        .unwrap();
    assert_eq!(out.deleted_count, 0);
    assert_eq!(store.count(&Filter::all()).unwrap(), 1);
}

#[test]
fn delete_one_removes_exactly_the_first_match() {
    let mut store = Store::new();
    seed(&mut store, "u1", "a", 1);
    seed(&mut store, "u1", "b", 2);
    let out = store.delete_one(&Filter::by_owner("u1".to_string())).unwrap();
    assert_eq!(out.deleted_count, 1);
    let left = store
        .find(&Filter::by_owner("u1".to_string()), &FindOptions::all())
        .unwrap();
    assert_eq!(left.len(), 1);
    assert_eq!(left[0].name, "b");
}

#[test]
fn delete_many_reports_the_exact_count() {
    let mut store = Store::new();
    seed(&mut store, "u1", "a", 1);
    seed(&mut store, "u2", "b", 2);
    seed(&mut store, "u1", "c", 3);
    let out = store
        .delete_many(&Filter::by_owner("u1".to_string()))
        .unwrap();
    assert_eq!(out.deleted_count, 2);
    assert_eq!(store.count(&Filter::all()).unwrap(), 1);
    let left = store.find_one(&Filter::all()).unwrap().unwrap();
    assert_eq!(left.owner, "u2");
}

#[test]
fn aggregate_runs_the_stages_in_order() {
    let mut store = Store::new();
    seed(&mut store, "u1", "a", 1);
    seed(&mut store, "u1", "b", 2);
    seed(&mut store, "u2", "x", 3);
    seed(&mut store, "u1", "c", 4);
    let pipeline = vec![
        Stage::MatchBy(Filter::by_owner("u1".to_string())),
        Stage::NewestFirst,
        Stage::SkipStage(1),
        Stage::LimitStage(1),
    ];
    let out = store.aggregate(&pipeline).unwrap();
    assert_eq!(out.len(), 1);
    assert_eq!(out[0].name, "b");
    // an empty pipeline returns every document in creation order
    let all = store.aggregate(&Vec::new()).unwrap();
    assert_eq!(all.len(), 4);
    assert_eq!(all[0].name, "a");
    assert_eq!(all[3].name, "c");
}

#[test]
fn sync_indexes_is_idempotent_and_touches_nothing() {
    let mut store = Store::new();
    seed(&mut store, "u1", "Rex", 1);
    assert!(store.sync_indexes().is_ok());
    assert!(store.sync_indexes().is_ok());
    assert_eq!(store.count(&Filter::all()).unwrap(), 1);
}

#[test]
fn cursor_matches_find() {
    let mut store = Store::new();
    seed(&mut store, "u1", "a", 1);
    seed(&mut store, "u1", "b", 2);
    let opts = FindOptions::all();
    let f = Filter::by_owner("u1".to_string());
    let by_find = store.find(&f, &opts).unwrap();
    let by_cursor = store.cursor(&f, &opts).unwrap();
    assert_eq!(by_find.len(), by_cursor.len());
    for (a, b) in by_find.iter().zip(by_cursor.iter()) {
        assert_eq!(a.name, b.name);
    }
}

#[test]
fn find_by_id_ignores_owner_scoping() {
    let mut store = Store::new();
    let created = seed(&mut store, "u1", "Rex", 1);
    let found = store.find_by_id(&created.id.unwrap()).unwrap().unwrap();
    assert_eq!(found.name, "Rex");
}
