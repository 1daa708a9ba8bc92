//! Where tag objects live under a dataset root.
//!
//! Every tag is one object, `<root>/_refs/tags/<name>.json`. A name with
//! slashes is a path of its own under the tag directory: each of its
//! components is one part of the object's path, and the last carries the
//! ending. Paths are those of the `object_store` crate, which spells each
//! part in its own encoded form; the contracts here speak of a path through
//! its text.

use vstd::prelude::*;
use vstd::string::*;
use object_store::path::Path;
use crate::refs::is_component;
use crate::text::chars_of;

verus! {

/// `object_store::path::Path`, carried through as an opaque value.
#[verifier::external_type_specification]
#[verifier::external_body]
pub struct ExPath(Path);

/// The text of a path: its parts in encoded form, joined by `/`, as
/// `Path::as_ref` returns it.
pub uninterp spec fn path_text(path: Path) -> Seq<char>;

/// The encoded form in which `object_store` spells the path part `part`, as
/// `PathPart::from` produces it.
pub uninterp spec fn part_text(part: Seq<char>) -> Seq<char>;

/// A character that `object_store` leaves as it is in a part: an ASCII
/// letter or digit, `_`, `-` or `.`.
pub open spec fn plain_char(c: char) -> bool {
    ('a' <= c && c <= 'z') || ('A' <= c && c <= 'Z') || ('0' <= c && c <= '9') || c == '_' || c
        == '-' || c == '.'
}

/// A part that `object_store` spells as it stands: a non-empty one of plain
/// characters that is neither `.` nor `..`.
pub open spec fn plain_part(part: Seq<char>) -> bool {
    &&& part.len() > 0
    &&& forall|i: int| 0 <= i < part.len() ==> plain_char(#[trigger] part[i])
    &&& part != seq!['.']
    &&& part != seq!['.', '.']
}

/// What the source of `object_store` shows of how parts are spelled: no
/// spelling holds a slash, only the empty part can be spelled empty, and no
/// two parts are spelled the same.
pub open spec fn spelling_holds() -> bool {
    &&& forall|part: Seq<char>| !(#[trigger] part_text(part)).contains('/')
    &&& forall|part: Seq<char>| part.len() > 0 ==> (#[trigger] part_text(part)).len() > 0
    &&& forall|one: Seq<char>, other: Seq<char>|
        #[trigger] part_text(one) == #[trigger] part_text(other) ==> one == other
}

/// What the source of `object_store` shows of the spelling `spelled` of the
/// part `part`: it is the spelling that parts have, and it is the part itself
/// where the part is plain.
pub open spec fn spelled_as(part: Seq<char>, spelled: Seq<char>) -> bool {
    &&& spelled == part_text(part)
    &&& plain_part(part) ==> spelled == part
    &&& spelling_holds()
}

/// What the text `child` of a child holds behind the text `base` of its
/// parent: the spelling of its last part.
pub open spec fn last_part(base: Seq<char>, child: Seq<char>) -> Seq<char> {
    if base.len() == 0 {
        child
    } else {
        child.skip(base.len() as int + 1)
    }
}

/// The text of the child `part` of a path whose text is `base`.
pub open spec fn child_text(base: Seq<char>, part: Seq<char>) -> Seq<char> {
    if base.len() == 0 {
        part_text(part)
    } else {
        base + seq!['/'] + part_text(part)
    }
}

/// The text `rest` under the text `base` of a path: behind a `/`, or alone
/// where the path is empty.
pub open spec fn under(base: Seq<char>, rest: Seq<char>) -> Seq<char> {
    if base.len() == 0 {
        rest
    } else {
        base + seq!['/'] + rest
    }
}

/// A relative name whose components are all plain parts, so that its path is
/// spelled as the name stands.
pub open spec fn plain_name(name: Seq<char>) -> bool {
    forall|a: int, b: int| #[trigger] is_component(name, a, b) ==> plain_part(name.subrange(a, b))
}

/// The text of the directory that holds the tags of the dataset at `base`.
pub open spec fn tags_dir_text(base: Seq<char>) -> Seq<char> {
    child_text(child_text(base, "_refs"@), "tags"@)
}

/// The name of the object that holds the tag `tag`, relative to the tag
/// directory.
pub open spec fn tag_file_name(tag: Seq<char>) -> Seq<char> {
    tag + ".json"@
}

/// The index of the first slash of `s`, or the length of `s` where it holds
/// none.
pub open spec fn first_slash(s: Seq<char>) -> int
    decreases s.len(),
{
    if s.len() == 0 || s[0] == '/' {
        0
    } else {
        1 + first_slash(s.skip(1))
    }
}

/// The text of the path that the relative name `name` has under the path
/// whose text is `dir`: one child for each component that the slashes of
/// `name` separate, in order.
pub open spec fn nested_text(dir: Seq<char>, name: Seq<char>) -> Seq<char>
    decreases name.len(),
{
    let slash = first_slash(name);
    if 0 <= slash < name.len() {
        nested_text(child_text(dir, name.take(slash)), name.skip(slash + 1))
    } else {
        child_text(dir, name)
    }
}

/// How a relative name is spelled in a path: the spellings of its
/// components, joined by `/`.
pub open spec fn spelled_name(name: Seq<char>) -> Seq<char>
    decreases name.len(),
{
    let slash = first_slash(name);
    if 0 <= slash < name.len() {
        part_text(name.take(slash)) + seq!['/'] + spelled_name(name.skip(slash + 1))
    } else {
        part_text(name)
    }
}

/// The text of the path of the object that holds the tag `tag` of the dataset
/// at `base`: the tag directory, then the components of the tag, the last
/// with the ending `.json`.
pub open spec fn tag_path_text(base: Seq<char>, tag: Seq<char>) -> Seq<char> {
    nested_text(tags_dir_text(base), tag_file_name(tag))
}

/// The first slash of a text is where the text holds a slash and holds none
/// before; where it holds none at all, it is the length.
pub proof fn lemma_first_slash(s: Seq<char>, at: int)
    requires
        0 <= at <= s.len(),
        forall|k: int| 0 <= k < at ==> s[k] != '/',
        at == s.len() || s[at] == '/',
    ensures
        first_slash(s) == at,
    decreases s.len(),
{
    if at > 0 {
        let rest = s.skip(1);
        assert forall|k: int| 0 <= k < at - 1 implies rest[k] != '/' by {
            assert(rest[k] == s[k + 1]);
        }
        lemma_first_slash(rest, at - 1);
    }
}

/// The first slash of a text lies within the text or at its end, is a slash
/// where it lies within, and has no slash before it.
pub proof fn lemma_first_slash_is_first(s: Seq<char>)
    ensures
        0 <= first_slash(s) <= s.len(),
        first_slash(s) < s.len() ==> s[first_slash(s)] == '/',
        forall|k: int| 0 <= k < first_slash(s) ==> s[k] != '/',
    decreases s.len(),
{
    if s.len() > 0 && s[0] != '/' {
        let rest = s.skip(1);
        lemma_first_slash_is_first(rest);
        assert forall|k: int| 0 <= k < first_slash(s) implies s[k] != '/' by {
            if k > 0 {
                assert(rest[k - 1] == s[k]);
            }
        }
    }
}

/// Under a path that is not empty, a relative name adds a `/` and its
/// spelling.
proof fn lemma_nested_is_spelled(dir: Seq<char>, name: Seq<char>)
    requires
        dir.len() > 0,
    ensures
        nested_text(dir, name) == dir + seq!['/'] + spelled_name(name),
    decreases name.len(),
{
    let slash = first_slash(name);
    lemma_first_slash_is_first(name);
    if slash < name.len() {
        let next = child_text(dir, name.take(slash));
        lemma_nested_is_spelled(next, name.skip(slash + 1));
        assert(nested_text(dir, name) =~= dir + seq!['/'] + spelled_name(name));
    }
}

/// Where the spelling of a name has its first slash: behind the spelling of
/// the first component, or nowhere for a name of one component.
proof fn lemma_spelled_first_slash(name: Seq<char>)
    requires
        spelling_holds(),
    ensures
        first_slash(name) < name.len() ==> first_slash(spelled_name(name)) == part_text(
            name.take(first_slash(name)),
        ).len() && first_slash(spelled_name(name)) < spelled_name(name).len(),
        first_slash(name) >= name.len() ==> first_slash(spelled_name(name)) == spelled_name(
            name,
        ).len(),
{
    lemma_first_slash_is_first(name);
    let slash = first_slash(name);
    let spelled = spelled_name(name);
    if slash < name.len() {
        let head = part_text(name.take(slash));
        assert(!head.contains('/'));
        assert forall|k: int| 0 <= k < head.len() implies spelled[k] != '/' by {
            assert(spelled[k] == head[k]);
            assert(head.contains(head[k]));
        }
        assert(spelled[head.len() as int] == '/');
        lemma_first_slash(spelled, head.len() as int);
    } else {
        assert(spelled == part_text(name));
        assert(!spelled.contains('/'));
        assert forall|k: int| 0 <= k < spelled.len() implies spelled[k] != '/' by {
            assert(spelled.contains(spelled[k]));
        }
        lemma_first_slash(spelled, spelled.len() as int);
    }
}

/// No two relative names are spelled the same.
proof fn lemma_spelled_names_differ(one: Seq<char>, other: Seq<char>)
    requires
        spelling_holds(),
        spelled_name(one) == spelled_name(other),
    ensures
        one == other,
    decreases one.len(),
{
    lemma_first_slash_is_first(one);
    lemma_first_slash_is_first(other);
    lemma_spelled_first_slash(one);
    lemma_spelled_first_slash(other);
    let a = first_slash(one);
    let b = first_slash(other);
    let spelled = spelled_name(one);
    if a < one.len() && b < other.len() {
        let head_one = part_text(one.take(a));
        let head_other = part_text(other.take(b));
        assert(head_one.len() == head_other.len());
        assert(head_one =~= spelled.take(head_one.len() as int));
        assert(head_other =~= spelled.take(head_other.len() as int));
        assert(one.take(a) == other.take(b));
        assert(a == b) by {
            assert(one.take(a).len() == a);
            assert(other.take(b).len() == b);
        }
        assert(spelled_name(one.skip(a + 1)) =~= spelled.skip(head_one.len() as int + 1));
        assert(spelled_name(other.skip(b + 1)) =~= spelled.skip(head_other.len() as int + 1));
        lemma_spelled_names_differ(one.skip(a + 1), other.skip(b + 1));
        assert(one =~= one.take(a) + seq!['/'] + one.skip(a + 1));
        assert(other =~= other.take(b) + seq!['/'] + other.skip(b + 1));
    } else if a >= one.len() && b >= other.len() {
        assert(part_text(one) == part_text(other));
    }
}

/// No two tags of a dataset have the same object: tags with different names
/// have paths with different texts.
proof fn lemma_tag_paths_differ(base: Seq<char>, one: Seq<char>, other: Seq<char>)
    requires
        spelling_holds(),
        tags_dir_text(base).len() > 0,
        tag_path_text(base, one) == tag_path_text(base, other),
    ensures
        one == other,
{
    let dir = tags_dir_text(base);
    let first = tag_file_name(one);
    let second = tag_file_name(other);
    lemma_nested_is_spelled(dir, first);
    lemma_nested_is_spelled(dir, second);
    let text = tag_path_text(base, one);
    assert(spelled_name(first) =~= text.skip(dir.len() as int + 1));
    assert(spelled_name(second) =~= text.skip(dir.len() as int + 1));
    lemma_spelled_names_differ(first, second);
    reveal_strlit(".json");
    assert(one =~= first.take(first.len() - 5));
    assert(other =~= second.take(second.len() - 5));
}

/// A child whose part is plain is spelled as the part stands.
proof fn lemma_plain_child(base: Seq<char>, part: Seq<char>, child: Seq<char>)
    requires
        child == child_text(base, part),
        spelled_as(part, last_part(base, child)),
        plain_part(part),
    ensures
        part_text(part) == part,
        child == under(base, part),
        child.len() > 0,
{
}

/// Calls `Path::child`. The crate's source shows that the child's text is the
/// encoded part alone under an empty path, and otherwise the parent's text, a
/// `/` and the encoded part; and of the encoded part what `spelled_as` says.
#[verifier::external_body]
fn path_child(base: &Path, part: &str) -> (child: Path)
    ensures
        path_text(child) == if path_text(*base).len() == 0 {
            part_text(part@)
        } else {
            path_text(*base) + seq!['/'] + part_text(part@)
        },
        spelled_as(part@, last_part(path_text(*base), path_text(child))),
{
    base.child(part)
}

/// `Clone::clone` of `Path`: the copy has the text of the path copied.
pub assume_specification[ <Path as Clone>::clone ](path: &Path) -> (copy: Path)
    ensures
        path_text(copy) == path_text(*path),
;

/// Calls `Path::as_ref`, which hands out the text, and copies it into a
/// string.
#[verifier::external_body]
pub(crate) fn path_string(path: &Path) -> (text: String)
    ensures
        text@ == path_text(*path),
{
    path.as_ref().to_string()
}

/// The directory under which the tags of the dataset at `base_path` live:
/// `_refs/tags` under the root.
pub fn base_tags_path(base_path: &Path) -> (dir: Path)
    ensures
        path_text(dir) == tags_dir_text(path_text(*base_path)),
        path_text(dir) == under(path_text(*base_path), "_refs/tags"@),
{
    tags_dir(base_path)
}

fn tags_dir(base_path: &Path) -> (dir: Path)
    ensures
        path_text(dir) == tags_dir_text(path_text(*base_path)),
        path_text(dir) == under(path_text(*base_path), "_refs/tags"@),
        path_text(dir).len() > 0,
        spelling_holds(),
{
    let refs = path_child(base_path, "_refs");
    let dir = path_child(&refs, "tags");
    proof {
        reveal_strlit("_refs");
        reveal_strlit("tags");
        reveal_strlit("_refs/tags");
        let base = path_text(*base_path);
        assert(plain_part("_refs"@)) by {
            assert("_refs"@ =~= seq!['_', 'r', 'e', 'f', 's']);
        }
        assert(plain_part("tags"@)) by {
            assert("tags"@ =~= seq!['t', 'a', 'g', 's']);
        }
        lemma_plain_child(base, "_refs"@, path_text(refs));
        lemma_plain_child(path_text(refs), "tags"@, path_text(dir));
        assert("_refs"@ + seq!['/'] + "tags"@ =~= "_refs/tags"@);
        assert(path_text(dir) =~= under(base, "_refs/tags"@));
    }
    dir
}

/// The path that the relative name `name` has under `dir`: one child for
/// each component that the slashes of `name` separate. A name of plain
/// components gives the path `<dir>/<name>`.
pub fn nested_path(dir: &Path, name: &str) -> (path: Path)
    ensures
        path_text(path) == nested_text(path_text(*dir), name@),
        plain_name(name@) ==> path_text(path) == under(path_text(*dir), name@),
{
    descend(dir, name)
}

fn descend(dir: &Path, name: &str) -> (path: Path)
    ensures
        path_text(path) == nested_text(path_text(*dir), name@),
        plain_name(name@) ==> path_text(path) == under(path_text(*dir), name@),
        spelling_holds(),
{
    let chars = chars_of(name);
    let n = chars.len();
    let mut path = dir.clone();
    let mut start: usize = 0;
    let mut i: usize = 0;
    assert(name@.skip(0) =~= name@);
    while i < n
        invariant
            start <= i <= n,
            n == chars.len(),
            chars@ == name@,
            start == 0 || name@[start - 1] == '/',
            forall|k: int| start <= k < i ==> name@[k] != '/',
            nested_text(path_text(*dir), name@) == nested_text(
                path_text(path),
                name@.skip(start as int),
            ),
            plain_name(name@) ==> path_text(path) == if start == 0 {
                path_text(*dir)
            } else {
                under(path_text(*dir), name@.take(start - 1))
            },
            plain_name(name@) && start > 0 ==> path_text(path).len() > 0,
        decreases n - i,
    {
        if chars[i] == '/' {
            let ghost rest = name@.skip(start as int);
            let ghost before = path_text(path);
            proof {
                assert forall|k: int| 0 <= k < i - start implies rest[k] != '/' by {
                    assert(rest[k] == name@[start + k]);
                }
                lemma_first_slash(rest, i - start);
                assert(rest.take(i - start) =~= name@.subrange(start as int, i as int));
                assert(rest.skip(i - start + 1) =~= name@.skip(i + 1));
            }
            path = path_child(&path, name.substring_char(start, i));
            proof {
                if plain_name(name@) {
                    let part = name@.subrange(start as int, i as int);
                    assert(is_component(name@, start as int, i as int));
                    lemma_plain_child(before, part, path_text(path));
                    if start == 0 {
                        assert(part =~= name@.take(i as int));
                    } else {
                        assert(name@.take(start - 1) + seq!['/'] + part =~= name@.take(i as int));
                        assert(path_text(path) =~= under(path_text(*dir), name@.take(i as int)));
                    }
                }
            }
            start = i + 1;
        }
        i += 1;
    }
    let ghost rest = name@.skip(start as int);
    let ghost before = path_text(path);
    proof {
        assert forall|k: int| 0 <= k < n - start implies rest[k] != '/' by {
            assert(rest[k] == name@[start + k]);
        }
        lemma_first_slash(rest, n - start);
        assert(rest =~= name@.subrange(start as int, n as int));
    }
    let last = path_child(&path, name.substring_char(start, n));
    proof {
        if plain_name(name@) {
            let part = name@.subrange(start as int, n as int);
            assert(is_component(name@, start as int, n as int));
            lemma_plain_child(before, part, path_text(last));
            if start == 0 {
                assert(part =~= name@);
            } else {
                assert(name@.take(start - 1) + seq!['/'] + part =~= name@);
                assert(path_text(last) =~= under(path_text(*dir), name@));
            }
        }
    }
    last
}

/// The path of the object that holds the tag `tag` of the dataset at
/// `base_path`.
///
/// For a tag of plain components this is `<root>/_refs/tags/<tag>.json`. No
/// other tag has the same path.
pub fn tag_path(base_path: &Path, tag: &str) -> (path: Path)
    ensures
        path_text(path) == tag_path_text(path_text(*base_path), tag@),
        plain_name(tag_file_name(tag@)) ==> path_text(path) == under(
            under(path_text(*base_path), "_refs/tags"@),
            tag_file_name(tag@),
        ),
        forall|other: Seq<char>|
            #[trigger] tag_path_text(path_text(*base_path), other) == path_text(path) ==> other
                == tag@,
{
    let dir = tags_dir(base_path);
    let file = String::from_str(tag).concat(".json");
    let path = descend(&dir, file.as_str());
    proof {
        let base = path_text(*base_path);
        assert forall|other: Seq<char>| #[trigger]
            tag_path_text(base, other) == path_text(path) implies other == tag@ by {
            lemma_tag_paths_differ(base, other, tag@);
        }
    }
    path
}

} // verus!
