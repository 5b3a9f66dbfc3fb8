use engula::apis::{CollectionOptions, DatabaseOptions, DatabaseProperties};
use engula::error::Error;
use engula::universe::{Collection, Database, Universe};

fn names_of(databases: &[&Database]) -> Vec<String> {
    databases.iter().map(|d| d.desc().name).collect()
}

fn universe_with(names: &[&str]) -> Universe {
    let mut uv = Universe::new();
    for name in names {
        uv.create_database(name, DatabaseOptions::default()).unwrap();
    }
    uv
}

#[test]
fn new_universe_is_empty() {
    let uv = Universe::new();
    let (dbs, next) = uv.list_databases(10, None).unwrap();
    assert!(dbs.is_empty());
    assert_eq!(next, None);
    let uv = Universe::default();
    assert!(uv.list_databases(10, None).unwrap().0.is_empty());
}

#[test]
fn first_database_gets_id_one() {
    let mut uv = Universe::new();
    let desc = uv.create_database("sales", DatabaseOptions::default()).unwrap().desc();
    assert_eq!(desc.id, 1);
    assert_eq!(desc.name, "sales");
    assert_eq!(desc.options, Some(DatabaseOptions::default()));
    assert_eq!(desc.properties, Some(DatabaseProperties { num_collections: 0 }));
}

#[test]
fn sales_and_orders_scenario() {
    let mut uv = Universe::new();
    let id = uv.create_database("sales", DatabaseOptions { payload: vec![] }).unwrap().desc().id;
    assert_eq!(id, 1);
    let co = uv
        .database_mut("sales")
        .unwrap()
        .create_collection("orders", CollectionOptions::default())
        .unwrap()
        .desc();
    assert_eq!(co.id, 1);
    assert_eq!(co.name, "orders");
    let desc = uv.database("sales").unwrap().desc();
    assert_eq!(desc.properties, Some(DatabaseProperties { num_collections: 1 }));
    uv.database_mut("sales").unwrap().delete_collection("orders").unwrap();
    let desc = uv.database("sales").unwrap().desc();
    assert_eq!(desc.properties, Some(DatabaseProperties { num_collections: 0 }));
    let missing = uv.database("sales").unwrap().collection("orders").err();
    assert_eq!(missing, Some(Error::NotFound("collection orders".to_string())));
}

#[test]
fn list_databases_in_pages_of_two() {
    let uv = universe_with(&["a", "b", "c", "d"]);
    let (first, next) = uv.list_databases(2, Some(String::new())).unwrap();
    assert_eq!(names_of(&first), vec!["a", "b"]);
    assert_eq!(next, Some("c".to_string()));
    let (second, next) = uv.list_databases(2, Some("c".to_string())).unwrap();
    assert_eq!(names_of(&second), vec!["c", "d"]);
    assert_eq!(next, None);
}

#[test]
fn a_page_that_leaves_one_child_names_it() {
    let uv = universe_with(&["a", "b", "c"]);
    let (first, next) = uv.list_databases(2, None).unwrap();
    assert_eq!(names_of(&first), vec!["a", "b"]);
    assert_eq!(next, Some("c".to_string()));
    let (second, next) = uv.list_databases(2, next).unwrap();
    assert_eq!(names_of(&second), vec!["c"]);
    assert_eq!(next, None);
}

#[test]
fn listing_orders_by_name_not_by_creation() {
    let uv = universe_with(&["delta", "alpha", "charlie", "bravo"]);
    let (all, next) = uv.list_databases(10, None).unwrap();
    assert_eq!(names_of(&all), vec!["alpha", "bravo", "charlie", "delta"]);
    assert_eq!(next, None);
    let ids: Vec<u64> = all.iter().map(|d| d.desc().id).collect();
    assert_eq!(ids, vec![2, 4, 3, 1]);
}

#[test]
fn listing_starts_at_the_token_inclusive() {
    let uv = universe_with(&["a", "b", "c", "d"]);
    let (page, next) = uv.list_databases(10, Some("b".to_string())).unwrap();
    assert_eq!(names_of(&page), vec!["b", "c", "d"]);
    assert_eq!(next, None);
    let (page, next) = uv.list_databases(1, Some("bb".to_string())).unwrap();
    assert_eq!(names_of(&page), vec!["c"]);
    assert_eq!(next, Some("d".to_string()));
    let (page, next) = uv.list_databases(3, Some("e".to_string())).unwrap();
    assert!(page.is_empty());
    assert_eq!(next, None);
}

#[test]
fn page_of_size_zero_is_empty_and_points_at_the_start() {
    let uv = universe_with(&["a", "b"]);
    let (page, next) = uv.list_databases(0, None).unwrap();
    assert!(page.is_empty());
    assert_eq!(next, Some("a".to_string()));
}

#[test]
fn names_are_ordered_by_their_bytes() {
    let uv = universe_with(&["b", "B", "a", "ab", "", "\u{e9}", "z"]);
    let (all, _) = uv.list_databases(usize::MAX, None).unwrap();
    assert_eq!(names_of(&all), vec!["", "B", "a", "ab", "b", "z", "\u{e9}"]);
}

#[test]
fn repeated_listing_yields_every_name_once() {
    let mut names: Vec<String> = (0..25).map(|i| format!("db{:02}", (i * 7) % 25)).collect();
    let mut uv = Universe::new();
    for name in &names {
        uv.create_database(name, DatabaseOptions::default()).unwrap();
    }
    names.sort();
    for page_size in 1..8usize {
        let mut seen: Vec<String> = Vec::new();
        let mut token: Option<String> = Some(String::new());
        while let Some(t) = token {
            let (page, next) = uv.list_databases(page_size, Some(t)).unwrap();
            assert!(page.len() <= page_size);
            seen.extend(names_of(&page));
            token = next;
        }
        assert_eq!(seen, names);
    }
}

#[test]
fn second_create_with_a_used_name_fails() {
    let mut uv = Universe::new();
    uv.create_database("a", DatabaseOptions { payload: vec![1, 2, 3] }).unwrap();
    let again = uv.create_database("a", DatabaseOptions { payload: vec![9] }).err();
    assert_eq!(again, Some(Error::AlreadyExists("database a".to_string())));
    let desc = uv.database("a").unwrap().desc();
    assert_eq!(desc.id, 1);
    assert_eq!(desc.options, Some(DatabaseOptions { payload: vec![1, 2, 3] }));
    let (all, _) = uv.list_databases(10, None).unwrap();
    assert_eq!(all.len(), 1);
    let next = uv.create_database("b", DatabaseOptions::default()).unwrap().desc();
    assert_eq!(next.id, 2);
}

#[test]
fn second_create_of_a_collection_fails() {
    let mut db = Database::new(7, "sales".to_string(), DatabaseOptions::default());
    db.create_collection("orders", CollectionOptions { payload: vec![5] }).unwrap();
    let again = db.create_collection("orders", CollectionOptions::default()).err();
    assert_eq!(again, Some(Error::AlreadyExists("collection orders".to_string())));
    let desc = db.collection("orders").unwrap().desc();
    assert_eq!(desc.id, 1);
    assert_eq!(desc.options, Some(CollectionOptions { payload: vec![5] }));
    assert_eq!(desc.properties, None);
    assert_eq!(db.desc().properties, Some(DatabaseProperties { num_collections: 1 }));
}

#[test]
fn identifiers_increase_and_are_not_reused() {
    let mut uv = Universe::new();
    let a = uv.create_database("a", DatabaseOptions::default()).unwrap().desc().id;
    let b = uv.create_database("b", DatabaseOptions::default()).unwrap().desc().id;
    uv.delete_database("b").unwrap();
    uv.delete_database("a").unwrap();
    let c = uv.create_database("a", DatabaseOptions::default()).unwrap().desc().id;
    let d = uv.create_database("b", DatabaseOptions::default()).unwrap().desc().id;
    assert_eq!(vec![a, b, c, d], vec![1, 2, 3, 4]);
}

#[test]
fn collection_identifiers_are_per_database() {
    let mut uv = universe_with(&["x", "y"]);
    let mut ids = Vec::new();
    for (db, co) in [("x", "one"), ("y", "one"), ("x", "two"), ("y", "two"), ("x", "three")] {
        let database = uv.database_mut(db).unwrap();
        ids.push(database.create_collection(co, CollectionOptions::default()).unwrap().desc().id);
    }
    assert_eq!(ids, vec![1, 1, 2, 2, 3]);
    uv.database_mut("x").unwrap().delete_collection("two").unwrap();
    let again = uv
        .database_mut("x")
        .unwrap()
        .create_collection("two", CollectionOptions::default())
        .unwrap()
        .desc()
        .id;
    assert_eq!(again, 4);
    assert_eq!(uv.database("y").unwrap().desc().properties.unwrap().num_collections, 2);
}

#[test]
fn a_database_created_again_starts_its_collections_at_one() {
    let mut uv = universe_with(&["x"]);
    uv.database_mut("x").unwrap().create_collection("c", CollectionOptions::default()).unwrap();
    uv.delete_database("x").unwrap();
    let id = uv.create_database("x", DatabaseOptions::default()).unwrap().desc().id;
    assert_eq!(id, 2);
    let co = uv
        .database_mut("x")
        .unwrap()
        .create_collection("c", CollectionOptions::default())
        .unwrap()
        .desc();
    assert_eq!(co.id, 1);
}

#[test]
fn deleting_an_absent_name_is_not_an_error() {
    let mut uv = universe_with(&["a"]);
    assert_eq!(uv.delete_database("nope"), Ok(()));
    assert_eq!(uv.delete_database("nope"), Ok(()));
    assert_eq!(names_of(&uv.list_databases(10, None).unwrap().0), vec!["a"]);
    let db = uv.database_mut("a").unwrap();
    assert_eq!(db.delete_collection("nope"), Ok(()));
    assert_eq!(db.desc().properties, Some(DatabaseProperties { num_collections: 0 }));
}

#[test]
fn deleted_database_is_not_found() {
    let mut uv = universe_with(&["a", "b"]);
    uv.delete_database("a").unwrap();
    assert_eq!(uv.database("a").err(), Some(Error::NotFound("database a".to_string())));
    assert_eq!(uv.database_mut("a").err(), Some(Error::NotFound("database a".to_string())));
    assert_eq!(uv.database("b").unwrap().desc().id, 2);
    assert_eq!(names_of(&uv.list_databases(10, None).unwrap().0), vec!["b"]);
}

#[test]
fn list_collections_in_pages() {
    let mut db = Database::new(1, "d".to_string(), DatabaseOptions::default());
    for name in ["k3", "k1", "k2"] {
        db.create_collection(name, CollectionOptions::default()).unwrap();
    }
    let (page, next) = db.list_collections(2, None).unwrap();
    let names: Vec<String> = page.iter().map(|c| c.desc().name).collect();
    assert_eq!(names, vec!["k1", "k2"]);
    assert_eq!(next, Some("k3".to_string()));
    let (page, next) = db.list_collections(2, next).unwrap();
    let ids: Vec<u64> = page.iter().map(|c| c.desc().id).collect();
    assert_eq!(ids, vec![1]);
    assert_eq!(next, None);
}

#[test]
fn collection_describes_what_it_was_made_with() {
    let co = Collection::new(42, "things".to_string(), CollectionOptions { payload: vec![7, 8] });
    let desc = co.desc();
    assert_eq!(desc.id, 42);
    assert_eq!(desc.name, "things");
    assert_eq!(desc.options, Some(CollectionOptions { payload: vec![7, 8] }));
    assert_eq!(desc.properties, None);
}

#[test]
fn creating_in_one_database_leaves_the_other_alone() {
    let mut uv = universe_with(&["left", "right"]);
    let before = uv.database("right").unwrap().desc();
    uv.database_mut("left").unwrap().create_collection("c", CollectionOptions::default()).unwrap();
    assert_eq!(uv.database("right").unwrap().desc(), before);
    let id = uv
        .database_mut("right")
        .unwrap()
        .create_collection("c", CollectionOptions::default())
        .unwrap()
        .desc()
        .id;
    assert_eq!(id, 1);
}
