use lance::paths::{base_tags_path, nested_path, tag_path};
use object_store::path::Path;

#[test]
fn tags_live_under_refs_tags() {
    let base = Path::from("data/my.lance");
    assert_eq!(base_tags_path(&base).as_ref(), "data/my.lance/_refs/tags");
    assert_eq!(
        tag_path(&base, "v1").as_ref(),
        "data/my.lance/_refs/tags/v1.json"
    );
}

#[test]
fn an_empty_root_gives_relative_paths() {
    let base = Path::default();
    assert_eq!(base_tags_path(&base).as_ref(), "_refs/tags");
    assert_eq!(tag_path(&base, "v1.2").as_ref(), "_refs/tags/v1.2.json");
}

#[test]
fn the_base_path_is_left_alone() {
    let base = Path::from("root");
    let path = tag_path(&base, "release");
    assert_ne!(path, base);
    assert_eq!(base.as_ref(), "root");
    assert!(path.prefix_matches(&base_tags_path(&base)));
    assert_eq!(path.filename(), Some("release.json"));
}

#[test]
fn a_nested_tag_is_a_path_of_its_own() {
    let base = Path::from("ds");
    assert_eq!(
        tag_path(&base, "nested/ref").as_ref(),
        "ds/_refs/tags/nested/ref.json"
    );
    let path = tag_path(&base, "deeply/nested/ref");
    assert_eq!(path.as_ref(), "ds/_refs/tags/deeply/nested/ref.json");
    assert_eq!(path.parts().count(), 6);
    assert_eq!(path.filename(), Some("ref.json"));
    assert_eq!(
        tag_path(&base, "nested/ref.extension").as_ref(),
        "ds/_refs/tags/nested/ref.extension.json"
    );
}

#[test]
fn nested_path_makes_one_child_per_component() {
    let dir = Path::from("a/b");
    assert_eq!(nested_path(&dir, "c").as_ref(), "a/b/c");
    assert_eq!(nested_path(&dir, "c/d/e.f").as_ref(), "a/b/c/d/e.f");
    assert_eq!(nested_path(&Path::default(), "c/d").as_ref(), "c/d");
    assert_eq!(nested_path(&dir, "c/d"), dir.child("c").child("d"));
}

#[test]
fn other_characters_are_spelled_by_the_store() {
    let base = Path::from("ds");
    let path = tag_path(&base, "a#b/c%d");
    assert_eq!(path, base_tags_path(&base).child("a#b").child("c%d.json"));
    assert_eq!(path.as_ref(), "ds/_refs/tags/a%23b/c%25d.json");
    assert_ne!(tag_path(&base, "a#b"), tag_path(&base, "a%23b"));
}
