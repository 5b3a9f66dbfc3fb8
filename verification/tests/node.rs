use engula::apis::CollectionOptions;
use engula::namespace::Namespace;
use engula::universe::Collection;

fn child(id: u64, name: &str) -> Collection {
    Collection::new(id, name.to_string(), CollectionOptions::default())
}

fn ids(page: &[&Collection]) -> Vec<u64> {
    page.iter().map(|c| c.desc().id).collect()
}

#[test]
fn node_starts_empty_and_counts_from_one() {
    let mut node: Namespace<Collection> = Namespace::new();
    assert_eq!(node.len(), 0);
    assert!(!node.contains("a"));
    assert!(node.get("a").is_none());
    assert_eq!(node.allocate(), 1);
    assert_eq!(node.allocate(), 2);
    assert_eq!(node.allocate(), 3);
    assert_eq!(node.len(), 0);
}

#[test]
fn node_files_children_under_their_names() {
    let mut node: Namespace<Collection> = Namespace::new();
    for (id, name) in [(10, "m"), (11, "c"), (12, "x"), (13, "a")] {
        node.insert(name.to_string(), child(id, name));
    }
    assert_eq!(node.len(), 4);
    assert!(node.contains("c"));
    assert!(!node.contains("b"));
    assert_eq!(node.get("x").map(|c| c.desc().id), Some(12));
    assert_eq!(node.get("a").map(|c| c.desc().id), Some(13));
    let (page, next) = node.page(10, "");
    assert_eq!(ids(&page), vec![13, 11, 10, 12]);
    assert_eq!(next, None);
}

#[test]
fn node_removes_only_the_named_child() {
    let mut node: Namespace<Collection> = Namespace::new();
    for (id, name) in [(1, "a"), (2, "b"), (3, "c")] {
        node.insert(name.to_string(), child(id, name));
    }
    node.remove("b");
    node.remove("zz");
    assert_eq!(node.len(), 2);
    assert!(!node.contains("b"));
    let (page, _) = node.page(10, "");
    assert_eq!(ids(&page), vec![1, 3]);
    node.remove("a");
    node.remove("c");
    assert_eq!(node.len(), 0);
}

#[test]
fn node_child_can_be_replaced_in_place() {
    let mut node: Namespace<Collection> = Namespace::new();
    node.insert("a".to_string(), child(1, "a"));
    node.insert("b".to_string(), child(2, "b"));
    if let Some(slot) = node.get_mut("a") {
        *slot = child(7, "a");
    }
    assert!(node.get_mut("nope").is_none());
    assert_eq!(node.get("a").map(|c| c.desc().id), Some(7));
    assert_eq!(node.get("b").map(|c| c.desc().id), Some(2));
}

#[test]
fn node_pages_follow_the_token() {
    let mut node: Namespace<Collection> = Namespace::new();
    for (id, name) in [(1, "a"), (2, "b"), (3, "c"), (4, "d"), (5, "e")] {
        node.insert(name.to_string(), child(id, name));
    }
    let (page, next) = node.page(2, "");
    assert_eq!(ids(&page), vec![1, 2]);
    assert_eq!(next, Some("c".to_string()));
    let (page, next) = node.page(2, "c");
    assert_eq!(ids(&page), vec![3, 4]);
    assert_eq!(next, Some("e".to_string()));
    let (page, next) = node.page(2, "e");
    assert_eq!(ids(&page), vec![5]);
    assert_eq!(next, None);
    let (page, next) = node.page(usize::MAX, "bb");
    assert_eq!(ids(&page), vec![3, 4, 5]);
    assert_eq!(next, None);
    let (page, next) = node.page(0, "d");
    assert!(page.is_empty());
    assert_eq!(next, Some("d".to_string()));
}
