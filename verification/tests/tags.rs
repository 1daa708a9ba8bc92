use lance::tags::{TagContents, TagSet};
use object_store::path::Path;

fn contents(version: u64, manifest_size: u64) -> TagContents {
    TagContents {
        version,
        manifest_size,
    }
}

fn sorted_names(set: &TagSet) -> Vec<String> {
    let mut names = set.names();
    names.sort();
    names
}

#[test]
fn a_new_set_is_empty() {
    let set = TagSet::new(Path::from("data"));
    assert!(set.is_empty());
    assert_eq!(set.len(), 0);
    assert_eq!(set.get("v1"), None);
    assert!(!set.contains("v1"));
    assert!(set.names().is_empty());
    assert_eq!(set.base().as_ref(), "data");
}

#[test]
fn with_adds_and_leaves_the_first_set_alone() {
    let empty = TagSet::new(Path::from("data"));
    let one = empty.with("v1", contents(3, 100));
    assert!(empty.is_empty());
    assert_eq!(one.len(), 1);
    assert!(!one.is_empty());
    assert_eq!(one.get("v1"), Some(contents(3, 100)));
    assert!(one.contains("v1"));
    assert!(!one.contains("v2"));
    assert_eq!(one.base().as_ref(), "data");
}

#[test]
fn with_replaces_what_a_name_records() {
    let set = TagSet::new(Path::from("data"))
        .with("v1", contents(3, 100))
        .with("v2", contents(4, 200))
        .with("v1", contents(5, 300));
    assert_eq!(set.len(), 2);
    assert_eq!(set.get("v1"), Some(contents(5, 300)));
    assert_eq!(set.get("v2"), Some(contents(4, 200)));
    assert_eq!(sorted_names(&set), vec!["v1".to_string(), "v2".to_string()]);
}

#[test]
fn without_removes_one_name_only() {
    let both = TagSet::new(Path::from("data"))
        .with("v1", contents(3, 100))
        .with("v2", contents(4, 200));
    let one = both.without("v1");
    assert_eq!(both.len(), 2);
    assert_eq!(one.len(), 1);
    assert_eq!(one.get("v1"), None);
    assert_eq!(one.get("v2"), Some(contents(4, 200)));
    assert_eq!(one.base().as_ref(), "data");
}

#[test]
fn without_a_missing_name_changes_nothing() {
    let set = TagSet::new(Path::from("data")).with("v1", contents(3, 100));
    let same = set.without("ghost");
    assert_eq!(same.len(), 1);
    assert_eq!(same.get("v1"), Some(contents(3, 100)));
}

#[test]
fn names_are_compared_as_whole_texts() {
    let set = TagSet::new(Path::from("data"))
        .with("v1", contents(1, 1))
        .with("v10", contents(10, 10))
        .with("V1", contents(2, 2));
    assert_eq!(set.len(), 3);
    assert_eq!(set.get("v1"), Some(contents(1, 1)));
    assert_eq!(set.get("v10"), Some(contents(10, 10)));
    assert_eq!(set.get("V1"), Some(contents(2, 2)));
    assert_eq!(set.get("v"), None);
}

#[test]
fn clone_keeps_root_and_tags() {
    let set = TagSet::new(Path::from("data")).with("v1", contents(3, 100));
    let copy = set.clone();
    assert_eq!(copy.len(), 1);
    assert_eq!(copy.get("v1"), Some(contents(3, 100)));
    assert_eq!(copy.base().as_ref(), "data");
}

#[test]
fn with_base_moves_the_tags_to_another_root() {
    let set = TagSet::new(Path::from("data")).with("v1", contents(3, 100));
    let moved = set.with_base(Path::from("other"));
    assert_eq!(moved.base().as_ref(), "other");
    assert_eq!(moved.get("v1"), Some(contents(3, 100)));
    assert_eq!(moved.len(), 1);
}
