use std::collections::{BTreeMap, HashMap};

use lance::error::Error;
use lance::ops::{tags_of_files, Pending, Reply, Request, Step};
use lance::paths::{base_tags_path, tag_path};
use lance::tags::{TagContents, TagSet};
use object_store::path::Path;

/// A store and a history that do what they are asked.
struct World {
    base: Path,
    objects: BTreeMap<String, TagContents>,
    history: HashMap<u64, u64>,
    requests: usize,
}

impl World {
    fn new(versions: &[(u64, u64)]) -> World {
        World {
            base: Path::from("data/set.lance"),
            objects: BTreeMap::new(),
            history: versions.iter().copied().collect(),
            requests: 0,
        }
    }

    fn answer(&mut self, request: &Request) -> Reply {
        self.requests += 1;
        match request {
            Request::ResolveVersion { version } => match self.history.get(version) {
                Some(size) => Reply::Resolved {
                    manifest_size: *size,
                },
                None => Reply::VersionMissing,
            },
            Request::WriteIfAbsent {
                tag,
                path,
                contents,
            } => {
                assert_eq!(path, &tag_path(&self.base, tag));
                if self.objects.contains_key(path.as_ref()) {
                    Reply::AlreadyExists
                } else {
                    self.objects.insert(path.as_ref().to_string(), *contents);
                    Reply::Written
                }
            }
            Request::Delete { tag, path } => {
                assert_eq!(path, &tag_path(&self.base, tag));
                match self.objects.remove(path.as_ref()) {
                    Some(_) => Reply::Deleted,
                    None => Reply::Missing,
                }
            }
            Request::List { prefix } => {
                assert_eq!(prefix, &base_tags_path(&self.base));
                let dir = format!("{}/", prefix.as_ref());
                Reply::Listed {
                    file_names: self
                        .objects
                        .keys()
                        .map(|path| {
                            let relative = path.strip_prefix(&dir).unwrap();
                            Path::from_url_path(relative).unwrap().as_ref().to_string()
                        })
                        .collect(),
                }
            }
            Request::Read { tag, path } => {
                assert_eq!(path, &tag_path(&self.base, tag));
                match self.objects.get(path.as_ref()) {
                    Some(contents) => Reply::Record {
                        contents: *contents,
                    },
                    None => Reply::Missing,
                }
            }
        }
    }

    fn run(&mut self, set: &TagSet, mut step: Step) -> Result<TagSet, Error> {
        loop {
            match step {
                Step::Done { result } => return result,
                Step::Ask { request, pending } => {
                    let reply = self.answer(&request);
                    step = set.resume(pending, reply);
                }
            }
        }
    }

    fn create(&mut self, set: &TagSet, tag: &str, version: u64) -> Result<TagSet, Error> {
        self.run(set, set.create(tag, version))
    }

    fn delete(&mut self, set: &TagSet, tag: &str) -> Result<TagSet, Error> {
        self.run(set, set.delete(tag))
    }

    fn list(&mut self, set: &TagSet) -> Result<TagSet, Error> {
        self.run(set, set.list())
    }

    fn empty_set(&self) -> TagSet {
        TagSet::new(self.base.clone())
    }
}

fn contents(version: u64, manifest_size: u64) -> TagContents {
    TagContents {
        version,
        manifest_size,
    }
}

fn failure(step: Step) -> Error {
    match step {
        Step::Done { result: Err(error) } => error,
        other => panic!("expected a failure, got {other:?}"),
    }
}

fn success(step: Step) -> TagSet {
    match step {
        Step::Done { result: Ok(set) } => set,
        other => panic!("expected a set, got {other:?}"),
    }
}

fn asked(step: Step) -> (Request, Pending) {
    match step {
        Step::Ask { request, pending } => (request, pending),
        other => panic!("expected a request, got {other:?}"),
    }
}

#[test]
fn round_trip_create_then_list() {
    let mut world = World::new(&[(3, 4096)]);
    let set = world.empty_set();
    let made = world.create(&set, "v1", 3).unwrap();
    assert_eq!(made.get("v1"), Some(contents(3, 4096)));
    assert_eq!(made.len(), 1);
    assert!(set.is_empty());
    let listed = world.list(&made).unwrap();
    assert_eq!(listed.get("v1"), Some(contents(3, 4096)));
    assert_eq!(listed.len(), 1);
    assert_eq!(listed.base().as_ref(), "data/set.lance");
}

#[test]
fn second_create_conflicts_and_keeps_the_first() {
    let mut world = World::new(&[(3, 10), (4, 20)]);
    let set = world.empty_set();
    let made = world.create(&set, "v1", 3).unwrap();
    let again = world.create(&made, "v1", 3).unwrap_err();
    assert_eq!(
        again,
        Error::RefConflict {
            message: "tag v1 already exists".to_string()
        }
    );
    let other = world.create(&made, "v1", 4).unwrap_err();
    assert!(matches!(other, Error::RefConflict { .. }));
    // a caller with a stale set meets the same conflict
    let stale = world.create(&set, "v1", 4).unwrap_err();
    assert!(matches!(stale, Error::RefConflict { .. }));
    let listed = world.list(&made).unwrap();
    assert_eq!(listed.get("v1"), Some(contents(3, 10)));
    assert_eq!(listed.len(), 1);
}

#[test]
fn reuse_after_delete() {
    let mut world = World::new(&[(3, 10), (5, 50)]);
    let set = world.empty_set();
    let made = world.create(&set, "v1", 3).unwrap();
    let gone = world.delete(&made, "v1").unwrap();
    assert!(gone.is_empty());
    assert_eq!(made.get("v1"), Some(contents(3, 10)));
    let remade = world.create(&gone, "v1", 5).unwrap();
    assert_eq!(remade.get("v1"), Some(contents(5, 50)));
    let listed = world.list(&remade).unwrap();
    assert_eq!(listed.get("v1"), Some(contents(5, 50)));
    assert_eq!(listed.len(), 1);
}

#[test]
fn delete_of_a_missing_tag_makes_no_request() {
    let mut world = World::new(&[(3, 10)]);
    let set = world.empty_set();
    let error = world.delete(&set, "ghost").unwrap_err();
    assert_eq!(
        error,
        Error::RefNotFound {
            message: "tag ghost does not exist".to_string()
        }
    );
    assert_eq!(error.to_string(), "Ref not found error: tag ghost does not exist");
    assert_eq!(world.requests, 0);
}

#[test]
fn create_of_an_unknown_version() {
    let mut world = World::new(&[(3, 10)]);
    let set = world.empty_set();
    let error = world.create(&set, "v1", 999).unwrap_err();
    assert_eq!(
        error,
        Error::VersionNotFound {
            message: "version 999 does not exist".to_string()
        }
    );
    assert_eq!(
        error.to_string(),
        "Version not found error: version 999 does not exist"
    );
    assert!(world.objects.is_empty());
    assert!(world.list(&set).unwrap().is_empty());
}

#[test]
fn racing_creates_have_one_winner() {
    // the two creates take their turns in every possible order
    let schedules: [[bool; 4]; 6] = [
        [true, true, false, false],
        [true, false, true, false],
        [true, false, false, true],
        [false, true, true, false],
        [false, true, false, true],
        [false, false, true, true],
    ];
    for schedule in schedules {
        let mut world = World::new(&[(3, 30), (4, 40)]);
        let set = world.empty_set();
        let mut first = Some(set.create("race", 3));
        let mut second = Some(set.create("race", 4));
        for turn in schedule {
            let slot = if turn { &mut first } else { &mut second };
            let step = match slot.take().unwrap() {
                Step::Ask { request, pending } => {
                    let reply = world.answer(&request);
                    set.resume(pending, reply)
                }
                done => done,
            };
            *slot = Some(step);
        }
        let first = match first.unwrap() {
            Step::Done { result } => result,
            other => panic!("{other:?}"),
        };
        let second = match second.unwrap() {
            Step::Done { result } => result,
            other => panic!("{other:?}"),
        };
        let (winner, loser, expected) = match (first, second) {
            (Ok(set), Err(error)) => (set, error, contents(3, 30)),
            (Err(error), Ok(set)) => (set, error, contents(4, 40)),
            other => panic!("{schedule:?}: {other:?}"),
        };
        assert_eq!(
            loser,
            Error::RefConflict {
                message: "tag race already exists".to_string()
            }
        );
        assert_eq!(winner.get("race"), Some(expected));
        let listed = world.list(&winner).unwrap();
        assert_eq!(listed.len(), 1);
        assert_eq!(listed.get("race"), Some(expected));
    }
}

#[test]
fn an_invalid_name_makes_no_request() {
    let mut world = World::new(&[(3, 10)]);
    let set = world.empty_set();
    for name in ["", ".ref", "a..b", "a b", "ref?", "/ref", "ref.", "a@{b", "@", "a\\b"] {
        let error = world.create(&set, name, 3).unwrap_err();
        assert!(matches!(error, Error::InvalidRef { .. }), "{name:?}");
    }
    assert_eq!(world.requests, 0);
    assert_eq!(
        failure(set.create("", 3)),
        Error::InvalidRef {
            message: "Ref cannot be empty".to_string()
        }
    );
}

#[test]
fn create_asks_for_the_version_then_for_the_write() {
    let set = TagSet::new(Path::from("root"));
    let (request, pending) = asked(set.create("v1", 7));
    assert!(matches!(request, Request::ResolveVersion { version: 7 }));
    assert!(matches!(&pending, Pending::Resolving { tag, version: 7 } if tag == "v1"));
    let (request, pending) = asked(set.resume(pending, Reply::Resolved { manifest_size: 99 }));
    match request {
        Request::WriteIfAbsent {
            tag,
            path,
            contents: written,
        } => {
            assert_eq!(tag, "v1");
            assert_eq!(path.as_ref(), "root/_refs/tags/v1.json");
            assert_eq!(written, contents(7, 99));
        }
        other => panic!("{other:?}"),
    }
    assert!(
        matches!(&pending, Pending::Writing { tag, contents: c } if tag == "v1" && *c == contents(7, 99))
    );
    let made = success(set.resume(pending, Reply::Written));
    assert_eq!(made.get("v1"), Some(contents(7, 99)));
    assert_eq!(made.base().as_ref(), "root");
}

#[test]
fn create_adds_to_the_set_it_started_from() {
    let set = TagSet::new(Path::from("root")).with("old", contents(1, 1));
    let pending = Pending::Writing {
        tag: "new".to_string(),
        contents: contents(2, 2),
    };
    let made = success(set.resume(pending, Reply::Written));
    assert_eq!(made.len(), 2);
    assert_eq!(made.get("old"), Some(contents(1, 1)));
    assert_eq!(made.get("new"), Some(contents(2, 2)));
    assert_eq!(set.len(), 1);
}

#[test]
fn lookup_failures() {
    let set = TagSet::new(Path::from("root"));
    let resolving = || Pending::Resolving {
        tag: "v1".to_string(),
        version: 12,
    };
    assert_eq!(
        failure(set.resume(resolving(), Reply::VersionMissing)),
        Error::VersionNotFound {
            message: "version 12 does not exist".to_string()
        }
    );
    assert_eq!(
        failure(set.resume(
            resolving(),
            Reply::NotFound {
                uri: "root/_versions".to_string()
            }
        )),
        Error::NotFound {
            uri: "root/_versions".to_string()
        }
    );
    assert_eq!(
        failure(set.resume(
            resolving(),
            Reply::Failed {
                message: "timed out".to_string()
            }
        )),
        Error::IOError {
            message: "version 12: timed out".to_string()
        }
    );
}

#[test]
fn write_failures() {
    let set = TagSet::new(Path::from("root"));
    let writing = || Pending::Writing {
        tag: "v1".to_string(),
        contents: contents(3, 10),
    };
    assert_eq!(
        failure(set.resume(writing(), Reply::AlreadyExists)),
        Error::RefConflict {
            message: "tag v1 already exists".to_string()
        }
    );
    assert_eq!(
        failure(set.resume(
            writing(),
            Reply::Failed {
                message: "connection reset".to_string()
            }
        )),
        Error::IOError {
            message: "tag v1 at root/_refs/tags/v1.json: connection reset".to_string()
        }
    );
}

#[test]
fn delete_asks_for_the_removal() {
    let set = TagSet::new(Path::from("root"))
        .with("v1", contents(3, 10))
        .with("v2", contents(4, 20));
    let (request, pending) = asked(set.delete("v1"));
    match request {
        Request::Delete { tag, path } => {
            assert_eq!(tag, "v1");
            assert_eq!(path.as_ref(), "root/_refs/tags/v1.json");
        }
        other => panic!("{other:?}"),
    }
    assert!(matches!(&pending, Pending::Deleting { tag } if tag == "v1"));
    let left = success(set.resume(pending, Reply::Deleted));
    assert_eq!(left.len(), 1);
    assert_eq!(left.get("v1"), None);
    assert_eq!(left.get("v2"), Some(contents(4, 20)));
    assert_eq!(set.len(), 2);
}

#[test]
fn delete_failures() {
    let set = TagSet::new(Path::from("root")).with("v1", contents(3, 10));
    let deleting = || Pending::Deleting {
        tag: "v1".to_string(),
    };
    // the object went away between the check and the removal
    assert_eq!(
        failure(set.resume(deleting(), Reply::Missing)),
        Error::RefNotFound {
            message: "tag v1 does not exist".to_string()
        }
    );
    assert_eq!(
        failure(set.resume(
            deleting(),
            Reply::Failed {
                message: "denied".to_string()
            }
        )),
        Error::IOError {
            message: "tag v1 at root/_refs/tags/v1.json: denied".to_string()
        }
    );
}

#[test]
fn a_tag_gone_from_the_store_is_not_found_on_delete() {
    let mut world = World::new(&[(3, 10)]);
    let set = world.empty_set();
    let made = world.create(&set, "v1", 3).unwrap();
    world.delete(&made, "v1").unwrap();
    // `made` still names the tag, the store does not hold it any more
    let error = world.delete(&made, "v1").unwrap_err();
    assert!(matches!(error, Error::RefNotFound { .. }));
}

#[test]
fn list_reads_every_tag_object() {
    let set = TagSet::new(Path::from("root")).with("stale", contents(9, 9));
    let (request, pending) = asked(set.list());
    match request {
        Request::List { prefix } => assert_eq!(prefix.as_ref(), "root/_refs/tags"),
        other => panic!("{other:?}"),
    }
    assert!(matches!(pending, Pending::Listing));
    let files = vec!["a.json".to_string(), "deep/b.json".to_string()];
    let (request, pending) = asked(set.resume(pending, Reply::Listed { file_names: files }));
    match request {
        Request::Read { tag, path } => {
            assert_eq!(tag, "a");
            assert_eq!(path.as_ref(), "root/_refs/tags/a.json");
        }
        other => panic!("{other:?}"),
    }
    let (request, pending) = asked(set.resume(
        pending,
        Reply::Record {
            contents: contents(1, 11),
        },
    ));
    match request {
        Request::Read { tag, path } => {
            assert_eq!(tag, "deep/b");
            assert_eq!(path.as_ref(), "root/_refs/tags/deep/b.json");
        }
        other => panic!("{other:?}"),
    }
    let listed = success(set.resume(
        pending,
        Reply::Record {
            contents: contents(2, 22),
        },
    ));
    // what storage holds, not what the set held
    assert_eq!(listed.len(), 2);
    assert_eq!(listed.get("a"), Some(contents(1, 11)));
    assert_eq!(listed.get("deep/b"), Some(contents(2, 22)));
    assert_eq!(listed.get("stale"), None);
    assert_eq!(listed.base().as_ref(), "root");
}

#[test]
fn list_of_an_empty_directory() {
    let set = TagSet::new(Path::from("root")).with("stale", contents(9, 9));
    let listed = success(set.resume(Pending::Listing, Reply::Listed { file_names: vec![] }));
    assert!(listed.is_empty());
}

#[test]
fn an_object_that_is_no_tag_object_ends_the_list() {
    let set = TagSet::new(Path::from("root"));
    let files = vec![
        "a.json".to_string(),
        "notes.txt".to_string(),
        "README".to_string(),
    ];
    assert_eq!(
        failure(set.resume(Pending::Listing, Reply::Listed { file_names: files })),
        Error::ParseError {
            message: "tags at root/_refs/tags: notes.txt is not the object of a tag".to_string()
        }
    );
}

#[test]
fn list_failures_are_fatal() {
    let set = TagSet::new(Path::from("root"));
    assert_eq!(
        failure(set.resume(
            Pending::Listing,
            Reply::Failed {
                message: "offline".to_string()
            }
        )),
        Error::IOError {
            message: "tags at root/_refs/tags: offline".to_string()
        }
    );
    let reading = || Pending::Reading {
        names: vec!["a".to_string(), "b".to_string()],
        at: 1,
        found: TagSet::new(Path::from("root")).with("a", contents(1, 1)),
    };
    assert_eq!(
        failure(set.resume(
            reading(),
            Reply::Malformed {
                message: "expected value at line 1 column 1".to_string()
            }
        )),
        Error::ParseError {
            message: "tag b at root/_refs/tags/b.json: expected value at line 1 column 1"
                .to_string()
        }
    );
    assert_eq!(
        failure(set.resume(reading(), Reply::Missing)),
        Error::IOError {
            message: "tag b at root/_refs/tags/b.json: the object listed is gone".to_string()
        }
    );
    assert_eq!(
        failure(set.resume(
            reading(),
            Reply::Failed {
                message: "offline".to_string()
            }
        )),
        Error::IOError {
            message: "tag b at root/_refs/tags/b.json: offline".to_string()
        }
    );
}

#[test]
fn a_reply_that_does_not_answer_the_request_is_a_store_failure() {
    let set = TagSet::new(Path::from("root")).with("v1", contents(3, 10));
    let unexpected = Error::IOError {
        message: "unexpected reply from storage".to_string(),
    };
    let resolving = Pending::Resolving {
        tag: "v1".to_string(),
        version: 3,
    };
    assert_eq!(failure(set.resume(resolving, Reply::Written)), unexpected);
    let writing = Pending::Writing {
        tag: "v1".to_string(),
        contents: contents(3, 10),
    };
    assert_eq!(failure(set.resume(writing, Reply::Deleted)), unexpected);
    let deleting = Pending::Deleting {
        tag: "v1".to_string(),
    };
    assert_eq!(failure(set.resume(deleting, Reply::Written)), unexpected);
    assert_eq!(
        failure(set.resume(Pending::Listing, Reply::VersionMissing)),
        unexpected
    );
    let reading = Pending::Reading {
        names: vec!["a".to_string()],
        at: 0,
        found: TagSet::new(Path::from("root")),
    };
    assert_eq!(failure(set.resume(reading, Reply::AlreadyExists)), unexpected);
    let past_the_end = Pending::Reading {
        names: vec!["a".to_string()],
        at: 1,
        found: TagSet::new(Path::from("root")),
    };
    assert_eq!(
        failure(set.resume(
            past_the_end,
            Reply::Record {
                contents: contents(1, 1)
            }
        )),
        unexpected
    );
}

#[test]
fn tags_of_files_keeps_the_order() {
    let files = vec![
        "b.json".to_string(),
        "a.json".to_string(),
        "nested/ref.json".to_string(),
        "dotted.ref.json".to_string(),
        ".json".to_string(),
    ];
    assert_eq!(
        tags_of_files(&files),
        Ok(vec![
            "b".to_string(),
            "a".to_string(),
            "nested/ref".to_string(),
            "dotted.ref".to_string(),
            String::new()
        ])
    );
    assert_eq!(tags_of_files(&Vec::new()), Ok(Vec::new()));
}

#[test]
fn tags_of_files_names_the_first_stranger() {
    let files = vec![
        "b.json".to_string(),
        "a.json.tmp".to_string(),
        "json".to_string(),
    ];
    assert_eq!(tags_of_files(&files), Err("a.json.tmp".to_string()));
    assert_eq!(
        tags_of_files(&vec!["v1.JSON".to_string()]),
        Err("v1.JSON".to_string())
    );
}

#[test]
fn round_trip_of_names_that_the_store_spells_its_own_way() {
    let mut world = World::new(&[(3, 30)]);
    let mut set = world.empty_set();
    let names = [
        "deeply/nested/ref",
        "nested/ref.extension",
        "ref_with_underscores",
        "a#b",
        "100%",
        "caf\u{e9}/cr\u{e8}me",
        "{x}",
    ];
    for name in names {
        set = world.create(&set, name, 3).unwrap();
    }
    assert!(world
        .objects
        .contains_key("data/set.lance/_refs/tags/deeply/nested/ref.json"));
    let listed = world.list(&set).unwrap();
    assert_eq!(listed.len(), names.len());
    for name in names {
        assert_eq!(listed.get(name), Some(contents(3, 30)), "{name:?}");
    }
    for name in names {
        set = world.delete(&set, name).unwrap();
    }
    assert!(world.objects.is_empty());
    assert!(world.list(&set).unwrap().is_empty());
}

#[test]
fn many_tags_survive_a_list() {
    let mut world = World::new(&[(1, 10), (2, 20), (3, 30)]);
    let mut set = world.empty_set();
    for (name, version) in [("alpha", 1), ("beta", 2), ("gamma", 3), ("v1.0", 1)] {
        set = world.create(&set, name, version).unwrap();
    }
    let listed = world.list(&set).unwrap();
    assert_eq!(listed.len(), 4);
    for name in set.names() {
        assert_eq!(listed.get(&name), set.get(&name));
    }
    assert_eq!(listed.get("gamma"), Some(contents(3, 30)));
}
