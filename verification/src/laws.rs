//! What holds of the tag operations when storage keeps its promises.
//!
//! The operations of this crate never see storage; they see replies. Here
//! storage is given a model, a world that answers every request the way a
//! correct object store and a correct history do: a conditional write stores
//! only where nothing is stored yet, and does so in one step. The laws below
//! run the operations against that world.

use vstd::prelude::*;
use crate::error::{ErrorKind, Failure};
use crate::ops::{
    failed, next_step, read_from, start_create, start_delete, start_list, stranger_from,
    tag_exists_text, tag_missing_text, tag_names, tag_of_file, version_missing_text, ReplyView,
    RequestView, StepView,
};
use crate::paths::{plain_char, plain_name, plain_part, tag_file_name, tag_path_text};
use crate::refs::{
    bad_component, first_broken_rule, is_component, lemma_first_broken_rule, pair_at, valid_ref,
    RefRule,
};
use crate::tags::TagContents;
use crate::text::lemma_without_suffix_of_concat;

verus! {

/// Storage and history as they are at one moment.
pub struct World {
    /// The tag objects in the store, by tag name.
    pub tags: Map<Seq<char>, TagContents>,
    /// The committed versions, each with the size of its manifest.
    pub history: Map<u64, u64>,
    /// The objects that the store hands out when the tag directory is
    /// enumerated, each by its name relative to the directory.
    pub listing: Seq<Seq<char>>,
}

/// The record that a create of `version` stores in `world`.
pub open spec fn record_of(world: World, version: u64) -> TagContents {
    TagContents { version, manifest_size: world.history[version] }
}

/// What `world` replies to `request`, and the world after it.
pub open spec fn answer(world: World, request: RequestView) -> (World, ReplyView) {
    match request {
        RequestView::ResolveVersion { version } => if world.history.contains_key(version) {
            (world, ReplyView::Resolved { manifest_size: world.history[version] })
        } else {
            (world, ReplyView::VersionMissing)
        },
        RequestView::WriteIfAbsent { tag, path, contents } => if world.tags.contains_key(tag) {
            (world, ReplyView::AlreadyExists)
        } else {
            (World { tags: world.tags.insert(tag, contents), ..world }, ReplyView::Written)
        },
        RequestView::Delete { tag, path } => if world.tags.contains_key(tag) {
            (World { tags: world.tags.remove(tag), ..world }, ReplyView::Deleted)
        } else {
            (world, ReplyView::Missing)
        },
        RequestView::List { prefix } => (world, ReplyView::Listed { file_names: world.listing }),
        RequestView::Read { tag, path } => if world.tags.contains_key(tag) {
            (world, ReplyView::Record { contents: world.tags[tag] })
        } else {
            (world, ReplyView::Missing)
        },
    }
}

/// One turn of an operation started from `set`: its request, if it has one,
/// is answered by `world`, and the operation goes on with the reply.
pub open spec fn advance(
    set: Map<Seq<char>, TagContents>,
    base: Seq<char>,
    world: World,
    step: StepView,
) -> (StepView, World) {
    match step {
        StepView::Done { .. } => (step, world),
        StepView::Ask { request, pending } => {
            let (after, reply) = answer(world, request);
            (next_step(set, base, pending, reply), after)
        },
    }
}

/// The operation at `step` after at most `turns` turns against `world`.
pub open spec fn run(
    set: Map<Seq<char>, TagContents>,
    base: Seq<char>,
    world: World,
    step: StepView,
    turns: nat,
) -> (StepView, World)
    decreases turns,
{
    if turns == 0 {
        (step, world)
    } else {
        let (next, after) = advance(set, base, world, step);
        run(set, base, after, next, (turns - 1) as nat)
    }
}

/// A create of `tag` for `version`, started from `set` and run to its end.
pub open spec fn create_outcome(
    set: Map<Seq<char>, TagContents>,
    base: Seq<char>,
    world: World,
    tag: Seq<char>,
    version: u64,
) -> (StepView, World) {
    run(set, base, world, start_create(base, tag, version), 2)
}

/// A delete of `tag`, started from `set` and run to its end.
pub open spec fn delete_outcome(
    set: Map<Seq<char>, TagContents>,
    base: Seq<char>,
    world: World,
    tag: Seq<char>,
) -> (StepView, World) {
    run(set, base, world, start_delete(set, base, tag), 1)
}

/// A list, started from `set` and run to its end.
pub open spec fn list_outcome(
    set: Map<Seq<char>, TagContents>,
    base: Seq<char>,
    world: World,
) -> (StepView, World) {
    run(set, base, world, start_list(base), world.listing.len() + 1)
}

/// The store enumerates its tags faithfully: the objects it names are those
/// of the tags it holds, and no others.
pub open spec fn lists_its_tags(world: World) -> bool {
    &&& forall|i: int|
        0 <= i < world.listing.len() ==> tag_of_file(#[trigger] world.listing[i]) is Some
    &&& forall|tag: Seq<char>| #[trigger]
        world.tags.contains_key(tag) <==> exists|i: int|
            0 <= i < world.listing.len() && tag_of_file(#[trigger] world.listing[i]) == Some(tag)
}

/// Among names that are all names of tag objects there is no stranger.
pub proof fn lemma_no_stranger(file_names: Seq<Seq<char>>, at: int)
    requires
        0 <= at,
        forall|i: int| 0 <= i < file_names.len() ==> tag_of_file(#[trigger] file_names[i]) is Some,
    ensures
        stranger_from(file_names, at) is None,
    decreases file_names.len() - at,
{
    if at < file_names.len() {
        lemma_no_stranger(file_names, at + 1);
    }
}

/// A valid tag of letters, digits, `_`, `-`, `.` and slashes is stored under
/// its own name: the relative name of its object is one of plain components,
/// and so its path is `<root>/_refs/tags/<tag>.json` as it stands.
pub proof fn law_plain_tag_has_plain_path(tag: Seq<char>)
    requires
        valid_ref(tag),
        forall|i: int| 0 <= i < tag.len() ==> plain_char(#[trigger] tag[i]) || tag[i] == '/',
    ensures
        plain_name(tag_file_name(tag)),
{
    reveal_strlit(".json");
    let ending = ".json"@;
    assert(ending =~= seq!['.', 'j', 's', 'o', 'n']);
    let name = tag_file_name(tag);
    let n = tag.len() as int;
    assert(RefRule::NonEmpty.holds(tag));
    assert(RefRule::Components.holds(tag));
    assert(RefRule::Slashes.holds(tag));
    assert forall|a: int, b: int| #[trigger] is_component(name, a, b) implies plain_part(
        name.subrange(a, b),
    ) by {
        let part = name.subrange(a, b);
        assert(forall|k: int| 0 <= k < n ==> name[k] == tag[k]);
        assert(forall|k: int| n <= k < n + 5 ==> name[k] == ending[k - n]);
        if b < n {
            assert(is_component(tag, a, b));
            assert(!bad_component(tag.subrange(a, b)));
            if a == b {
                if a == 0 {
                    assert(tag.first() == '/');
                } else {
                    assert(pair_at(tag, '/', '/', a - 1));
                }
            }
            assert(part =~= tag.subrange(a, b));
            assert(part[0] == tag.subrange(a, b)[0]);
            assert forall|k: int| 0 <= k < part.len() implies plain_char(#[trigger] part[k]) by {
                assert(part[k] == tag[a + k]);
            }
        } else if b == n + 5 {
            if a > n {
                assert(name[a - 1] != '/');
            }
            if a == n {
                assert(tag.last() == '/');
            }
            assert(is_component(tag, a, n));
            assert(!bad_component(tag.subrange(a, n)));
            assert(tag.subrange(a, n)[0] == tag[a]);
            assert(part[0] == tag[a]);
            assert forall|k: int| 0 <= k < part.len() implies plain_char(#[trigger] part[k]) by {
                if a + k < n {
                    assert(part[k] == tag[a + k]);
                } else {
                    assert(part[k] == ending[a + k - n]);
                }
            }
        } else {
            assert(name[b] == ending[b - n]);
        }
    }
}

/// The object that the path convention names for a tag is read back as the
/// object of that tag.
pub proof fn law_file_name_names_its_tag(tag: Seq<char>)
    ensures
        tag_of_file(tag_file_name(tag)) == Some(tag),
{
    lemma_without_suffix_of_concat(tag, ".json"@);
}

/// The tags among object names are the tags that the single objects hold.
pub proof fn lemma_tag_names(file_names: Seq<Seq<char>>, tag: Seq<char>)
    ensures
        tag_names(file_names).len() <= file_names.len(),
        tag_names(file_names).contains(tag) <==> exists|i: int|
            0 <= i < file_names.len() && tag_of_file(#[trigger] file_names[i]) == Some(tag),
    decreases file_names.len(),
{
    if file_names.len() > 0 {
        let front = file_names.drop_last();
        let last = file_names.last();
        lemma_tag_names(front, tag);
        let names = tag_names(file_names);
        if names.contains(tag) {
            let k = choose|k: int| 0 <= k < names.len() && names[k] == tag;
            if tag_of_file(last) is Some && k == names.len() - 1 {
                assert(tag_of_file(file_names[file_names.len() - 1]) == Some(tag));
            } else {
                assert(tag_names(front)[k] == tag);
                assert(tag_names(front).contains(tag));
                let i = choose|i: int|
                    0 <= i < front.len() && tag_of_file(#[trigger] front[i]) == Some(tag);
                assert(tag_of_file(file_names[i]) == Some(tag));
            }
        }
        if exists|i: int|
            0 <= i < file_names.len() && tag_of_file(#[trigger] file_names[i]) == Some(tag) {
            let i = choose|i: int|
                0 <= i < file_names.len() && tag_of_file(#[trigger] file_names[i]) == Some(tag);
            if i < file_names.len() - 1 {
                assert(tag_of_file(front[i]) == Some(tag));
                assert(tag_names(front).contains(tag));
                let k = choose|k: int| 0 <= k < tag_names(front).len() && tag_names(front)[k] == tag;
                assert(names[k] == tag);
            } else {
                assert(names[names.len() - 1] == tag);
            }
        }
    }
}

/// Reading on from `names[at]` in a world that holds every one of the names
/// ends with the records found before, overlaid with the records of the
/// names read.
proof fn lemma_read_all(
    set: Map<Seq<char>, TagContents>,
    base: Seq<char>,
    world: World,
    names: Seq<Seq<char>>,
    at: nat,
    found: Map<Seq<char>, TagContents>,
    turns: nat,
)
    requires
        at <= names.len(),
        turns >= names.len() - at,
        forall|k: int| 0 <= k < names.len() ==> world.tags.contains_key(#[trigger] names[k]),
    ensures
        run(set, base, world, read_from(base, names, at, found), turns).1 == world,
        run(set, base, world, read_from(base, names, at, found), turns).0 matches StepView::Done {
            result: Ok(all),
        } && (forall|tag: Seq<char>| #[trigger]
            all.contains_key(tag) <==> found.contains_key(tag) || exists|k: int|
                at <= k < names.len() && #[trigger] names[k] == tag) && (forall|tag: Seq<char>| #[trigger]
            all.contains_key(tag) ==> all[tag] == if exists|k: int|
                at <= k < names.len() && #[trigger] names[k] == tag {
                world.tags[tag]
            } else {
                found[tag]
            }),
    decreases turns,
{
    let start = read_from(base, names, at, found);
    if at >= names.len() {
        lemma_run_done(set, base, world, start, turns);
    } else {
        let tag = names[at as int];
        assert(world.tags.contains_key(tag));
        let more = found.insert(tag, world.tags[tag]);
        let (next, after) = advance(set, base, world, start);
        assert(after == world);
        assert(next == read_from(base, names, at + 1, more));
        lemma_read_all(set, base, world, names, at + 1, more, (turns - 1) as nat);
        let all = run(set, base, world, next, (turns - 1) as nat).0->Done_result->Ok_0;
        assert forall|t: Seq<char>| #[trigger] all.contains_key(t) <==> found.contains_key(t)
            || exists|k: int| at <= k < names.len() && #[trigger] names[k] == t by {
            if t == tag {
                assert(names[at as int] == t);
            }
            if exists|k: int| at <= k < names.len() && #[trigger] names[k] == t {
                let k = choose|k: int| at <= k < names.len() && #[trigger] names[k] == t;
                if k > at {
                    assert(at + 1 <= k < names.len() && names[k] == t);
                }
            }
        }
        assert forall|t: Seq<char>| #[trigger] all.contains_key(t) implies all[t] == if exists|
            k: int,
        |
            at <= k < names.len() && #[trigger] names[k] == t {
            world.tags[t]
        } else {
            found[t]
        } by {
            if t == tag {
                assert(names[at as int] == t);
            }
            if exists|k: int| at + 1 <= k < names.len() && #[trigger] names[k] == t {
                let k = choose|k: int| at + 1 <= k < names.len() && #[trigger] names[k] == t;
                assert(at <= k < names.len() && names[k] == t);
            }
        }
    }
}

/// An operation that is over stays as it is, however many turns follow.
pub proof fn lemma_run_done(
    set: Map<Seq<char>, TagContents>,
    base: Seq<char>,
    world: World,
    step: StepView,
    turns: nat,
)
    requires
        step is Done,
    ensures
        run(set, base, world, step, turns) == (step, world),
    decreases turns,
{
    if turns > 0 {
        lemma_run_done(set, base, world, step, (turns - 1) as nat);
    }
}

/// A list returns exactly what the store holds, whatever set it is started
/// from and whatever the order in which a faithful store enumerates its
/// objects, and changes nothing.
pub proof fn law_list_shows_the_store(
    set: Map<Seq<char>, TagContents>,
    base: Seq<char>,
    world: World,
)
    requires
        lists_its_tags(world),
    ensures
        list_outcome(set, base, world) == (StepView::Done { result: Ok(world.tags) }, world),
{
    lemma_no_stranger(world.listing, 0);
    let names = tag_names(world.listing);
    let empty = Map::<Seq<char>, TagContents>::empty();
    assert forall|k: int| 0 <= k < names.len() implies world.tags.contains_key(
        #[trigger] names[k],
    ) by {
        lemma_tag_names(world.listing, names[k]);
        assert(names.contains(names[k]));
    }
    lemma_tag_names(world.listing, Seq::empty());
    let (first, after) = advance(set, base, world, start_list(base));
    assert(after == world);
    assert(first == read_from(base, names, 0, empty));
    lemma_read_all(set, base, world, names, 0, empty, world.listing.len());
    let all = run(set, base, world, first, world.listing.len()).0->Done_result->Ok_0;
    assert forall|tag: Seq<char>| all.contains_key(tag) <==> world.tags.contains_key(tag) by {
        lemma_tag_names(world.listing, tag);
        if world.tags.contains_key(tag) {
            assert(names.contains(tag));
            let k = choose|k: int| 0 <= k < names.len() && names[k] == tag;
            assert(0 <= k < names.len() && names[k] == tag);
        }
        if all.contains_key(tag) {
            let k = choose|k: int| 0 <= k < names.len() && #[trigger] names[k] == tag;
            assert(names.contains(tag));
        }
    }
    assert(all =~= world.tags);
}

/// A create succeeds exactly when the name is valid, the version is part of
/// the history and the store holds no tag of that name. It then stores the
/// record, changes nothing else in the store, and returns the set it started
/// from with the record added.
pub proof fn law_create(
    set: Map<Seq<char>, TagContents>,
    base: Seq<char>,
    world: World,
    tag: Seq<char>,
    version: u64,
)
    ensures
        ({
            let (end, after) = create_outcome(set, base, world, tag, version);
            if valid_ref(tag) && world.history.contains_key(version) && !world.tags.contains_key(tag) {
                &&& end == StepView::Done { result: Ok(set.insert(tag, record_of(world, version))) }
                &&& after == World { tags: world.tags.insert(tag, record_of(world, version)), ..world }
            } else {
                &&& end matches StepView::Done { result: Err(_) }
                &&& after == world
            }
        }),
{
    reveal_with_fuel(run, 3);
    lemma_first_broken_rule(tag);
}

/// Round trip: after a create that succeeds, a list started from the set
/// that the create returned shows the tag with the version it was created
/// for and the size of that version's manifest.
pub proof fn law_create_then_list(
    set: Map<Seq<char>, TagContents>,
    base: Seq<char>,
    world: World,
    tag: Seq<char>,
    version: u64,
    listing: Seq<Seq<char>>,
)
    requires
        create_outcome(set, base, world, tag, version).0 matches StepView::Done { result: Ok(_) },
        lists_its_tags(World { listing, ..create_outcome(set, base, world, tag, version).1 }),
    ensures
        ({
            let (made, stored) = create_outcome(set, base, world, tag, version);
            let after = World { listing, ..stored };
            &&& list_outcome(made->Done_result->Ok_0, base, after).0 matches StepView::Done {
                result: Ok(shown),
            }
            &&& shown.contains_key(tag)
            &&& shown[tag] == record_of(world, version)
        }),
{
    law_create(set, base, world, tag, version);
    let (made, stored) = create_outcome(set, base, world, tag, version);
    let after = World { listing, ..stored };
    law_list_shows_the_store(made->Done_result->Ok_0, base, after);
}

/// Conflict: a create of a name that was created before fails as a conflict,
/// whatever version it asks for, and the store keeps the first record.
pub proof fn law_second_create_conflicts(
    set: Map<Seq<char>, TagContents>,
    base: Seq<char>,
    world: World,
    tag: Seq<char>,
    first: u64,
    second: u64,
)
    requires
        create_outcome(set, base, world, tag, first).0 matches StepView::Done { result: Ok(_) },
        world.history.contains_key(second),
    ensures
        ({
            let (made, after) = create_outcome(set, base, world, tag, first);
            let again = create_outcome(made->Done_result->Ok_0, base, after, tag, second);
            &&& again.0 == failed(ErrorKind::RefConflict, tag_exists_text(tag))
            &&& again.1 == after
            &&& after.tags[tag] == record_of(world, first)
        }),
{
    reveal_with_fuel(run, 3);
    lemma_first_broken_rule(tag);
    law_create(set, base, world, tag, first);
}

/// Reuse after delete: a create, a delete and a create of the same name all
/// succeed, and the store then holds the record of the second create.
pub proof fn law_reuse_after_delete(
    set: Map<Seq<char>, TagContents>,
    base: Seq<char>,
    world: World,
    tag: Seq<char>,
    first: u64,
    second: u64,
)
    requires
        valid_ref(tag),
        world.history.contains_key(first),
        world.history.contains_key(second),
        !world.tags.contains_key(tag),
    ensures
        ({
            let (made, w1) = create_outcome(set, base, world, tag, first);
            let s1 = made->Done_result->Ok_0;
            let (gone, w2) = delete_outcome(s1, base, w1, tag);
            let s2 = gone->Done_result->Ok_0;
            let (remade, w3) = create_outcome(s2, base, w2, tag, second);
            &&& made == StepView::Done { result: Ok(set.insert(tag, record_of(world, first))) }
            &&& gone == StepView::Done { result: Ok(s1.remove(tag)) }
            &&& remade == StepView::Done { result: Ok(s2.insert(tag, record_of(world, second))) }
            &&& w2.tags == world.tags
            &&& w3.tags == world.tags.insert(tag, record_of(world, second))
        }),
{
    reveal_with_fuel(run, 3);
    lemma_first_broken_rule(tag);
    law_create(set, base, world, tag, first);
    let (made, w1) = create_outcome(set, base, world, tag, first);
    let s1 = made->Done_result->Ok_0;
    let (gone, w2) = delete_outcome(s1, base, w1, tag);
    assert(w2.tags =~= world.tags);
    let s2 = gone->Done_result->Ok_0;
    law_create(s2, base, w2, tag, second);
}

/// Missing target: a delete of a name that the set does not hold fails as not
/// found, without a request, and the store stays as it is.
pub proof fn law_delete_missing(
    set: Map<Seq<char>, TagContents>,
    base: Seq<char>,
    world: World,
    tag: Seq<char>,
)
    requires
        !set.contains_key(tag),
    ensures
        start_delete(set, base, tag) == failed(ErrorKind::RefNotFound, tag_missing_text(tag)),
        delete_outcome(set, base, world, tag) == (
            failed(ErrorKind::RefNotFound, tag_missing_text(tag)),
            world,
        ),
{
    reveal_with_fuel(run, 2);
}

/// A delete of a name that the set holds removes the object and returns the
/// set without the name; where the object is gone already, it fails as not
/// found. No other object is touched.
pub proof fn law_delete(
    set: Map<Seq<char>, TagContents>,
    base: Seq<char>,
    world: World,
    tag: Seq<char>,
)
    requires
        set.contains_key(tag),
    ensures
        ({
            let (end, after) = delete_outcome(set, base, world, tag);
            if world.tags.contains_key(tag) {
                &&& end == StepView::Done { result: Ok(set.remove(tag)) }
                &&& after == World { tags: world.tags.remove(tag), ..world }
            } else {
                &&& end == failed(ErrorKind::RefNotFound, tag_missing_text(tag))
                &&& after == world
            }
        }),
{
    reveal_with_fuel(run, 2);
}

/// Out of range: a create with a valid name for a version that the history
/// does not hold fails as version not found, and the store stays as it is.
pub proof fn law_create_unknown_version(
    set: Map<Seq<char>, TagContents>,
    base: Seq<char>,
    world: World,
    tag: Seq<char>,
    version: u64,
)
    requires
        valid_ref(tag),
        !world.history.contains_key(version),
    ensures
        create_outcome(set, base, world, tag, version) == (
            failed(ErrorKind::VersionNotFound, version_missing_text(version)),
            world,
        ),
{
    reveal_with_fuel(run, 3);
    lemma_first_broken_rule(tag);
}

/// An invalid name is refused before any request is made.
pub proof fn law_invalid_name_makes_no_request(base: Seq<char>, tag: Seq<char>, version: u64)
    requires
        !valid_ref(tag),
    ensures
        start_create(base, tag, version) matches StepView::Done { result: Err(failure) }
            && failure.kind == ErrorKind::InvalidRef,
{
    lemma_first_broken_rule(tag);
}

/// No operation replaces what a name records: after a create or a delete,
/// every name that the store held before and holds after records what it did
/// before, and only the name operated on can have come or gone.
pub proof fn law_records_never_change(
    set: Map<Seq<char>, TagContents>,
    base: Seq<char>,
    world: World,
    tag: Seq<char>,
    version: u64,
    other: Seq<char>,
)
    ensures
        ({
            let created = create_outcome(set, base, world, tag, version).1;
            let deleted = delete_outcome(set, base, world, tag).1;
            &&& world.tags.contains_key(other) && created.tags.contains_key(other)
                ==> created.tags[other] == world.tags[other]
            &&& world.tags.contains_key(other) ==> created.tags.contains_key(other)
            &&& deleted.tags.contains_key(other) ==> world.tags.contains_key(other)
                && deleted.tags[other] == world.tags[other]
            &&& other != tag ==> (created.tags.contains_key(other) <==> world.tags.contains_key(
                other,
            )) && (deleted.tags.contains_key(other) <==> world.tags.contains_key(other))
        }),
{
    reveal_with_fuel(run, 3);
    lemma_first_broken_rule(tag);
}

/// Membership changes one way at a time: a create that succeeds adds a name
/// that the set did not hold, provided the set knew of the name if the store
/// held it, and a delete that succeeds removes a name that the set held. Every
/// other name records in the new set what it recorded in the old one.
pub proof fn law_membership_transitions(
    set: Map<Seq<char>, TagContents>,
    base: Seq<char>,
    world: World,
    tag: Seq<char>,
    version: u64,
    other: Seq<char>,
)
    requires
        world.tags.contains_key(tag) || !set.contains_key(tag),
        other != tag,
    ensures
        create_outcome(set, base, world, tag, version).0 matches StepView::Done {
            result: Ok(made),
        } ==> {
            &&& !set.contains_key(tag)
            &&& made.contains_key(tag)
            &&& made.contains_key(other) == set.contains_key(other)
            &&& made.contains_key(other) ==> made[other] == set[other]
        },
        delete_outcome(set, base, world, tag).0 matches StepView::Done { result: Ok(left) } ==> {
            &&& set.contains_key(tag)
            &&& !left.contains_key(tag)
            &&& left.contains_key(other) == set.contains_key(other)
            &&& left.contains_key(other) ==> left[other] == set[other]
        },
{
    reveal_with_fuel(run, 3);
    lemma_first_broken_rule(tag);
}

/// How often `who` has the turn in `schedule`.
pub open spec fn turns_of(schedule: Seq<bool>, who: bool) -> nat
    decreases schedule.len(),
{
    if schedule.len() == 0 {
        0
    } else {
        turns_of(schedule.drop_first(), who) + if schedule.first() == who {
            1nat
        } else {
            0nat
        }
    }
}

/// Two operations started from the same set, taking turns against one world
/// as `schedule` says: `true` gives the turn to the first, `false` to the
/// second.
pub open spec fn interleave(
    set: Map<Seq<char>, TagContents>,
    base: Seq<char>,
    world: World,
    first: StepView,
    second: StepView,
    schedule: Seq<bool>,
) -> (StepView, StepView, World)
    decreases schedule.len(),
{
    if schedule.len() == 0 {
        (first, second, world)
    } else if schedule.first() {
        let (next, after) = advance(set, base, world, first);
        interleave(set, base, after, next, second, schedule.drop_first())
    } else {
        let (next, after) = advance(set, base, world, second);
        interleave(set, base, after, first, next, schedule.drop_first())
    }
}

/// Concurrency: of two creates of the same unused name that run at the same
/// time, in whatever order their requests reach storage, exactly one
/// succeeds and the other fails as a conflict; the store then holds the
/// record of the one that succeeded, whole, and nothing else has changed.
pub proof fn law_racing_creates(
    set: Map<Seq<char>, TagContents>,
    base: Seq<char>,
    world: World,
    tag: Seq<char>,
    one: u64,
    two: u64,
    schedule: Seq<bool>,
)
    requires
        valid_ref(tag),
        world.history.contains_key(one),
        world.history.contains_key(two),
        !world.tags.contains_key(tag),
        turns_of(schedule, true) == 2,
        turns_of(schedule, false) == 2,
    ensures
        ({
            let (first, second, after) = interleave(
                set,
                base,
                world,
                start_create(base, tag, one),
                start_create(base, tag, two),
                schedule,
            );
            let conflict = failed(ErrorKind::RefConflict, tag_exists_text(tag));
            ||| {
                &&& first == StepView::Done { result: Ok(set.insert(tag, record_of(world, one))) }
                &&& second == conflict
                &&& after == World { tags: world.tags.insert(tag, record_of(world, one)), ..world }
            }
            ||| {
                &&& second == StepView::Done { result: Ok(set.insert(tag, record_of(world, two))) }
                &&& first == conflict
                &&& after == World { tags: world.tags.insert(tag, record_of(world, two)), ..world }
            }
        }),
{
    lemma_first_broken_rule(tag);
    let s0 = schedule;
    assert(s0.len() > 0);
    let s1 = s0.drop_first();
    assert(s1.len() > 0) by {
        reveal_with_fuel(turns_of, 2);
    }
    let s2 = s1.drop_first();
    assert(s2.len() > 0) by {
        reveal_with_fuel(turns_of, 3);
    }
    let s3 = s2.drop_first();
    assert(s3.len() > 0) by {
        reveal_with_fuel(turns_of, 4);
    }
    let s4 = s3.drop_first();
    assert(s4.len() == 0 && turns_of(s0, true) == (if s0.first() { 1nat } else { 0nat }) + (if s1.first() { 1nat } else { 0nat }) + (if s2.first() { 1nat } else { 0nat }) + (if s3.first() { 1nat } else { 0nat })) by {
        reveal_with_fuel(turns_of, 6);
    }
    reveal_with_fuel(interleave, 6);
}

} // verus!
