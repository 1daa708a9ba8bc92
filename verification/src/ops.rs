//! Listing, creating and deleting tags, one storage request at a time.
//!
//! The operations decide; they do not touch storage. Each starts from a
//! [`TagSet`] and yields a [`Step`]: either the operation is done, or it asks
//! for one request to be performed. The caller performs the request against
//! the object store or the dataset's history and resumes the operation with
//! the reply. Nothing is retried here, and a request that was never answered
//! leaves no state behind.

use vstd::prelude::*;
use vstd::string::*;
use object_store::path::Path;
use crate::error::{Error, ErrorKind, Failure};
use crate::paths::{
    base_tags_path, path_string, path_text, tag_path, tag_path_text, tags_dir_text,
};
use crate::refs::{check_valid_ref, first_broken_rule, lemma_first_broken_rule};
use crate::tags::{TagContents, TagSet};
use crate::text::{decimal, decimal_string, strip_suffix, texts, without_suffix};

verus! {

/// What an operation asks the caller to do.
#[derive(Debug)]
pub enum Request {
    /// Look `version` up in the dataset's history.
    ResolveVersion { version: u64 },
    /// Store the record of `tag` at `path`, atomically and only if no object
    /// is there yet.
    WriteIfAbsent { tag: String, path: Path, contents: TagContents },
    /// Remove the object at `path`, which holds `tag`.
    Delete { tag: String, path: Path },
    /// Enumerate the objects under `prefix`, those in directories below it
    /// too.
    List { prefix: Path },
    /// Read the whole object at `path` and parse it as the record of `tag`.
    Read { tag: String, path: Path },
}

/// What the caller reports back.
#[derive(Debug)]
pub enum Reply {
    /// The version exists; its manifest has `manifest_size` bytes.
    Resolved { manifest_size: u64 },
    /// The history holds no such version.
    VersionMissing,
    /// The dataset could not find `uri`, which it needed for the lookup.
    NotFound { uri: String },
    /// The object was stored.
    Written,
    /// Nothing was stored: an object is there already.
    AlreadyExists,
    /// The object was removed.
    Deleted,
    /// There is no such object.
    Missing,
    /// The objects under the prefix, however deep: each by its path
    /// relative to the prefix, with its parts as they stand, not encoded, and
    /// joined by `/`.
    Listed { file_names: Vec<String> },
    /// The object holds this record.
    Record { contents: TagContents },
    /// The object is not UTF-8 JSON of a tag record.
    Malformed { message: String },
    /// The store failed; `message` is what it reported.
    Failed { message: String },
}

/// An operation that waits for a reply.
#[derive(Debug)]
pub enum Pending {
    /// A create waits for the lookup of `version`.
    Resolving { tag: String, version: u64 },
    /// A create waits for the conditional write of `contents`.
    Writing { tag: String, contents: TagContents },
    /// A delete waits for the removal.
    Deleting { tag: String },
    /// A list waits for the enumeration.
    Listing,
    /// A list waits for the record of `names[at]`; `found` holds the records
    /// read so far.
    Reading { names: Vec<String>, at: usize, found: TagSet },
}

/// Where an operation stands.
#[derive(Debug)]
pub enum Step {
    /// Perform `request`, then resume `pending` with the reply.
    Ask { request: Request, pending: Pending },
    /// The operation is over.
    Done { result: Result<TagSet, Error> },
}

/// A [`Request`] as plain values.
pub enum RequestView {
    ResolveVersion { version: u64 },
    WriteIfAbsent { tag: Seq<char>, path: Seq<char>, contents: TagContents },
    Delete { tag: Seq<char>, path: Seq<char> },
    List { prefix: Seq<char> },
    Read { tag: Seq<char>, path: Seq<char> },
}

/// A [`Reply`] as plain values.
pub enum ReplyView {
    Resolved { manifest_size: u64 },
    VersionMissing,
    NotFound { uri: Seq<char> },
    Written,
    AlreadyExists,
    Deleted,
    Missing,
    Listed { file_names: Seq<Seq<char>> },
    Record { contents: TagContents },
    Malformed { message: Seq<char> },
    Failed { message: Seq<char> },
}

/// A [`Pending`] as plain values.
pub enum PendingView {
    Resolving { tag: Seq<char>, version: u64 },
    Writing { tag: Seq<char>, contents: TagContents },
    Deleting { tag: Seq<char> },
    Listing,
    Reading { names: Seq<Seq<char>>, at: nat, found: Map<Seq<char>, TagContents> },
}

/// A [`Step`] as plain values.
pub enum StepView {
    Ask { request: RequestView, pending: PendingView },
    Done { result: Result<Map<Seq<char>, TagContents>, Failure> },
}

impl View for Request {
    type V = RequestView;

    open spec fn view(&self) -> RequestView {
        match self {
            Request::ResolveVersion { version } => RequestView::ResolveVersion {
                version: *version,
            },
            Request::WriteIfAbsent { tag, path, contents } => RequestView::WriteIfAbsent {
                tag: tag@,
                path: path_text(*path),
                contents: *contents,
            },
            Request::Delete { tag, path } => RequestView::Delete {
                tag: tag@,
                path: path_text(*path),
            },
            Request::List { prefix } => RequestView::List { prefix: path_text(*prefix) },
            Request::Read { tag, path } => RequestView::Read { tag: tag@, path: path_text(*path) },
        }
    }
}

impl View for Reply {
    type V = ReplyView;

    open spec fn view(&self) -> ReplyView {
        match self {
            Reply::Resolved { manifest_size } => ReplyView::Resolved {
                manifest_size: *manifest_size,
            },
            Reply::VersionMissing => ReplyView::VersionMissing,
            Reply::NotFound { uri } => ReplyView::NotFound { uri: uri@ },
            Reply::Written => ReplyView::Written,
            Reply::AlreadyExists => ReplyView::AlreadyExists,
            Reply::Deleted => ReplyView::Deleted,
            Reply::Missing => ReplyView::Missing,
            Reply::Listed { file_names } => ReplyView::Listed { file_names: texts(file_names@) },
            Reply::Record { contents } => ReplyView::Record { contents: *contents },
            Reply::Malformed { message } => ReplyView::Malformed { message: message@ },
            Reply::Failed { message } => ReplyView::Failed { message: message@ },
        }
    }
}

impl View for Pending {
    type V = PendingView;

    open spec fn view(&self) -> PendingView {
        match self {
            Pending::Resolving { tag, version } => PendingView::Resolving {
                tag: tag@,
                version: *version,
            },
            Pending::Writing { tag, contents } => PendingView::Writing {
                tag: tag@,
                contents: *contents,
            },
            Pending::Deleting { tag } => PendingView::Deleting { tag: tag@ },
            Pending::Listing => PendingView::Listing,
            Pending::Reading { names, at, found } => PendingView::Reading {
                names: texts(names@),
                at: *at as nat,
                found: found@,
            },
        }
    }
}

impl View for Step {
    type V = StepView;

    open spec fn view(&self) -> StepView {
        match self {
            Step::Ask { request, pending } => StepView::Ask {
                request: request@,
                pending: pending@,
            },
            Step::Done { result } => StepView::Done {
                result: match result {
                    Ok(set) => Ok(set@),
                    Err(error) => Err(error@),
                },
            },
        }
    }
}

impl Step {
    /// A set that this step hands out belongs to the dataset at `base`.
    pub open spec fn rooted_at(&self, base: Seq<char>) -> bool {
        self matches Step::Done { result: Ok(set) } ==> set.base_text() == base
    }
}

/// The detail of the failure to find `version` in the history.
pub open spec fn version_missing_text(version: u64) -> Seq<char> {
    "version "@ + decimal(version as nat) + " does not exist"@
}

/// The detail of the failure to create `tag`, which exists.
pub open spec fn tag_exists_text(tag: Seq<char>) -> Seq<char> {
    "tag "@ + tag + " already exists"@
}

/// The detail of the failure to delete `tag`, which does not exist.
pub open spec fn tag_missing_text(tag: Seq<char>) -> Seq<char> {
    "tag "@ + tag + " does not exist"@
}

/// What the store reported about the object of `tag` at `path`, with both
/// attached.
pub open spec fn object_text(tag: Seq<char>, path: Seq<char>, message: Seq<char>) -> Seq<char> {
    "tag "@ + tag + " at "@ + path + ": "@ + message
}

/// What the dataset reported about `version`, with the version attached.
pub open spec fn lookup_text(version: u64, message: Seq<char>) -> Seq<char> {
    "version "@ + decimal(version as nat) + ": "@ + message
}

/// What the store reported about the enumeration under `prefix`, with the
/// prefix attached.
pub open spec fn listing_text(prefix: Seq<char>, message: Seq<char>) -> Seq<char> {
    "tags at "@ + prefix + ": "@ + message
}

/// The detail of the failure that a reply does not answer the request.
pub open spec fn unexpected_text() -> Seq<char> {
    "unexpected reply from storage"@
}

/// What is reported of an object that was listed and is gone when read.
pub open spec fn vanished_text() -> Seq<char> {
    "the object listed is gone"@
}

/// The outcome for a reply that does not answer the request.
pub open spec fn unexpected() -> StepView {
    StepView::Done {
        result: Err(Failure { kind: ErrorKind::IOError, detail: unexpected_text() }),
    }
}

/// The outcome that `detail` went wrong, as an error of kind `kind`.
pub open spec fn failed(kind: ErrorKind, detail: Seq<char>) -> StepView {
    StepView::Done { result: Err(Failure { kind, detail }) }
}

/// What is reported of the object `file_name` under the tag directory, whose
/// name is not that of a tag object.
pub open spec fn stranger_text(file_name: Seq<char>) -> Seq<char> {
    file_name + " is not the object of a tag"@
}

/// The tag that the object named `file_name`, relative to the tag directory,
/// holds: the name without its ending `.json`. A name with another ending is
/// not that of a tag object.
pub open spec fn tag_of_file(file_name: Seq<char>) -> Option<Seq<char>> {
    without_suffix(file_name, ".json"@)
}

/// The first of the names `file_names`, from `at` on, that is not the name of
/// a tag object.
pub open spec fn stranger_from(file_names: Seq<Seq<char>>, at: int) -> Option<Seq<char>>
    decreases file_names.len() - at,
{
    if at < 0 || at >= file_names.len() {
        None
    } else if tag_of_file(file_names[at]) is None {
        Some(file_names[at])
    } else {
        stranger_from(file_names, at + 1)
    }
}

/// The tags held by the objects named `file_names`, in their order.
pub open spec fn tag_names(file_names: Seq<Seq<char>>) -> Seq<Seq<char>>
    decreases file_names.len(),
{
    if file_names.len() == 0 {
        Seq::empty()
    } else {
        let front = tag_names(file_names.drop_last());
        match tag_of_file(file_names.last()) {
            Some(tag) => front.push(tag),
            None => front,
        }
    }
}

/// How a create of `tag` at `version` starts, for the dataset at `base`: an
/// invalid name fails at once, a valid one has the version looked up.
pub open spec fn start_create(base: Seq<char>, tag: Seq<char>, version: u64) -> StepView {
    match first_broken_rule(tag) {
        Some(rule) => failed(ErrorKind::InvalidRef, rule.spec_message()),
        None => StepView::Ask {
            request: RequestView::ResolveVersion { version },
            pending: PendingView::Resolving { tag, version },
        },
    }
}

/// How a delete of `tag` from `set` starts: a tag that the set does not hold
/// fails at once, another has its object removed.
pub open spec fn start_delete(
    set: Map<Seq<char>, TagContents>,
    base: Seq<char>,
    tag: Seq<char>,
) -> StepView {
    if set.contains_key(tag) {
        StepView::Ask {
            request: RequestView::Delete { tag, path: tag_path_text(base, tag) },
            pending: PendingView::Deleting { tag },
        }
    } else {
        failed(ErrorKind::RefNotFound, tag_missing_text(tag))
    }
}

/// How a list starts: with the enumeration of the tag directory.
pub open spec fn start_list(base: Seq<char>) -> StepView {
    StepView::Ask {
        request: RequestView::List { prefix: tags_dir_text(base) },
        pending: PendingView::Listing,
    }
}

/// How a list goes on when `found` holds the records of `names` before `at`:
/// the next record is read, or the list is done.
pub open spec fn read_from(
    base: Seq<char>,
    names: Seq<Seq<char>>,
    at: nat,
    found: Map<Seq<char>, TagContents>,
) -> StepView {
    if at < names.len() {
        StepView::Ask {
            request: RequestView::Read {
                tag: names[at as int],
                path: tag_path_text(base, names[at as int]),
            },
            pending: PendingView::Reading { names, at, found },
        }
    } else {
        StepView::Done { result: Ok(found) }
    }
}

/// How the operation `pending`, started from `set` for the dataset at `base`,
/// goes on after `reply`.
pub open spec fn next_step(
    set: Map<Seq<char>, TagContents>,
    base: Seq<char>,
    pending: PendingView,
    reply: ReplyView,
) -> StepView {
    match pending {
        PendingView::Resolving { tag, version } => match reply {
            ReplyView::Resolved { manifest_size } => StepView::Ask {
                request: RequestView::WriteIfAbsent {
                    tag,
                    path: tag_path_text(base, tag),
                    contents: TagContents { version, manifest_size },
                },
                pending: PendingView::Writing {
                    tag,
                    contents: TagContents { version, manifest_size },
                },
            },
            ReplyView::VersionMissing => failed(
                ErrorKind::VersionNotFound,
                version_missing_text(version),
            ),
            ReplyView::NotFound { uri } => failed(ErrorKind::NotFound, uri),
            ReplyView::Failed { message } => failed(
                ErrorKind::IOError,
                lookup_text(version, message),
            ),
            _ => unexpected(),
        },
        PendingView::Writing { tag, contents } => match reply {
            ReplyView::Written => StepView::Done { result: Ok(set.insert(tag, contents)) },
            ReplyView::AlreadyExists => failed(ErrorKind::RefConflict, tag_exists_text(tag)),
            ReplyView::Failed { message } => failed(
                ErrorKind::IOError,
                object_text(tag, tag_path_text(base, tag), message),
            ),
            _ => unexpected(),
        },
        PendingView::Deleting { tag } => match reply {
            ReplyView::Deleted => StepView::Done { result: Ok(set.remove(tag)) },
            ReplyView::Missing => failed(ErrorKind::RefNotFound, tag_missing_text(tag)),
            ReplyView::Failed { message } => failed(
                ErrorKind::IOError,
                object_text(tag, tag_path_text(base, tag), message),
            ),
            _ => unexpected(),
        },
        PendingView::Listing => match reply {
            ReplyView::Listed { file_names } => match stranger_from(file_names, 0) {
                Some(file_name) => failed(
                    ErrorKind::ParseError,
                    listing_text(tags_dir_text(base), stranger_text(file_name)),
                ),
                None => read_from(base, tag_names(file_names), 0, Map::empty()),
            },
            ReplyView::Failed { message } => failed(
                ErrorKind::IOError,
                listing_text(tags_dir_text(base), message),
            ),
            _ => unexpected(),
        },
        PendingView::Reading { names, at, found } => if at < names.len() {
            let tag = names[at as int];
            match reply {
                ReplyView::Record { contents } => read_from(
                    base,
                    names,
                    at + 1,
                    found.insert(tag, contents),
                ),
                ReplyView::Malformed { message } => failed(
                    ErrorKind::ParseError,
                    object_text(tag, tag_path_text(base, tag), message),
                ),
                ReplyView::Missing => failed(
                    ErrorKind::IOError,
                    object_text(tag, tag_path_text(base, tag), vanished_text()),
                ),
                ReplyView::Failed { message } => failed(
                    ErrorKind::IOError,
                    object_text(tag, tag_path_text(base, tag), message),
                ),
                _ => unexpected(),
            }
        } else {
            unexpected()
        },
    }
}

fn done_unexpected() -> (step: Step)
    ensures
        step@ == unexpected(),
{
    Step::Done {
        result: Err(Error::IOError { message: String::from_str("unexpected reply from storage") }),
    }
}

fn object_message(tag: &str, path: &Path, message: &str) -> (text: String)
    ensures
        text@ == object_text(tag@, path_text(*path), message@),
{
    let at = path_string(path);
    String::from_str("tag ").concat(tag).concat(" at ").concat(at.as_str()).concat(": ").concat(
        message,
    )
}

fn lookup_message(version: u64, message: &str) -> (text: String)
    ensures
        text@ == lookup_text(version, message@),
{
    let numeral = decimal_string(version);
    String::from_str("version ").concat(numeral.as_str()).concat(": ").concat(message)
}

/// The tags held by the objects named `file_names`, in their order; or the
/// first of the names that is not the name of a tag object.
pub fn tags_of_files(file_names: &Vec<String>) -> (names: Result<Vec<String>, String>)
    ensures
        match stranger_from(texts(file_names@), 0) {
            Some(file_name) => names matches Err(found) && found@ == file_name,
            None => names matches Ok(tags) && texts(tags@) == tag_names(texts(file_names@)),
        },
{
    let mut names: Vec<String> = Vec::new();
    let mut i: usize = 0;
    assert(texts(file_names@).take(0) =~= Seq::<Seq<char>>::empty());
    assert(texts(names@) =~= Seq::<Seq<char>>::empty());
    while i < file_names.len()
        invariant
            i <= file_names@.len(),
            texts(names@) == tag_names(texts(file_names@).take(i as int)),
            stranger_from(texts(file_names@), 0) == stranger_from(texts(file_names@), i as int),
        decreases file_names@.len() - i,
    {
        let ghost seen = texts(file_names@).take(i as int);
        let ghost file = texts(file_names@)[i as int];
        proof {
            assert(texts(file_names@).take(i + 1) =~= seen.push(file));
            assert(seen.push(file).drop_last() =~= seen);
            assert(file == file_names@[i as int]@);
        }
        match strip_suffix(file_names[i].as_str(), ".json") {
            Some(tag) => {
                assert(texts(names@.push(tag)) =~= texts(names@).push(tag@));
                names.push(tag);
            },
            None => {
                return Err(file_names[i].clone());
            },
        }
        i += 1;
    }
    assert(texts(file_names@).take(i as int) =~= texts(file_names@));
    Ok(names)
}

impl TagSet {
    /// Starts the creation of the tag `tag` for `version`.
    ///
    /// An invalid name is refused at once, before any request. For a valid
    /// one the version is looked up first.
    pub fn create(&self, tag: &str, version: u64) -> (step: Step)
        ensures
            step@ == start_create(self.base_text(), tag@, version),
            step.rooted_at(self.base_text()),
    {
        proof {
            lemma_first_broken_rule(tag@);
        }
        match check_valid_ref(tag) {
            Err(error) => Step::Done { result: Err(error) },
            Ok(()) => Step::Ask {
                request: Request::ResolveVersion { version },
                pending: Pending::Resolving { tag: String::from_str(tag), version },
            },
        }
    }

    /// Starts the deletion of the tag `tag`.
    ///
    /// A tag that this set does not hold is reported as not found at once,
    /// before any request.
    pub fn delete(&self, tag: &str) -> (step: Step)
        ensures
            step@ == start_delete(self@, self.base_text(), tag@),
            step.rooted_at(self.base_text()),
    {
        if self.contains(tag) {
            Step::Ask {
                request: Request::Delete {
                    tag: String::from_str(tag),
                    path: tag_path(self.base(), tag),
                },
                pending: Pending::Deleting { tag: String::from_str(tag) },
            }
        } else {
            Step::Done {
                result: Err(
                    Error::RefNotFound {
                        message: String::from_str("tag ").concat(tag).concat(" does not exist"),
                    },
                ),
            }
        }
    }

    /// Starts the listing of the tags in storage.
    pub fn list(&self) -> (step: Step)
        ensures
            step@ == start_list(self.base_text()),
            step.rooted_at(self.base_text()),
    {
        Step::Ask {
            request: Request::List { prefix: base_tags_path(self.base()) },
            pending: Pending::Listing,
        }
    }

    fn read_on(&self, names: Vec<String>, at: usize, found: TagSet) -> (step: Step)
        ensures
            step@ == read_from(self.base_text(), texts(names@), at as nat, found@),
            step.rooted_at(self.base_text()),
    {
        if at < names.len() {
            let tag = names[at].clone();
            let path = tag_path(self.base(), tag.as_str());
            Step::Ask {
                request: Request::Read { tag, path },
                pending: Pending::Reading { names, at, found },
            }
        } else {
            Step::Done { result: Ok(found.with_base(self.base().clone())) }
        }
    }

    /// Goes on with the operation `pending`, which was started from this set,
    /// after its request was answered by `reply`.
    ///
    /// A set that comes out is this set with the one change made; for a list
    /// it is what storage holds. A list reads every object under the tag
    /// directory; one that is not named as a tag object, or does not hold a
    /// tag's record, ends the list as a parse error. A reply that does not
    /// answer the request ends the operation as a failure of the store.
    pub fn resume(&self, pending: Pending, reply: Reply) -> (step: Step)
        ensures
            step@ == next_step(self@, self.base_text(), pending@, reply@),
            step.rooted_at(self.base_text()),
    {
        match pending {
            Pending::Resolving { tag, version } => match reply {
                Reply::Resolved { manifest_size } => {
                    let contents = TagContents { version, manifest_size };
                    let path = tag_path(self.base(), tag.as_str());
                    Step::Ask {
                        request: Request::WriteIfAbsent { tag: tag.clone(), path, contents },
                        pending: Pending::Writing { tag, contents },
                    }
                },
                Reply::VersionMissing => {
                    let numeral = decimal_string(version);
                    Step::Done {
                        result: Err(
                            Error::VersionNotFound {
                                message: String::from_str("version ").concat(
                                    numeral.as_str(),
                                ).concat(" does not exist"),
                            },
                        ),
                    }
                },
                Reply::NotFound { uri } => Step::Done { result: Err(Error::NotFound { uri }) },
                Reply::Failed { message } => Step::Done {
                    result: Err(
                        Error::IOError { message: lookup_message(version, message.as_str()) },
                    ),
                },
                _ => done_unexpected(),
            },
            Pending::Writing { tag, contents } => match reply {
                Reply::Written => Step::Done { result: Ok(self.with(tag.as_str(), contents)) },
                Reply::AlreadyExists => Step::Done {
                    result: Err(
                        Error::RefConflict {
                            message: String::from_str("tag ").concat(tag.as_str()).concat(
                                " already exists",
                            ),
                        },
                    ),
                },
                Reply::Failed { message } => {
                    let path = tag_path(self.base(), tag.as_str());
                    Step::Done {
                        result: Err(
                            Error::IOError {
                                message: object_message(tag.as_str(), &path, message.as_str()),
                            },
                        ),
                    }
                },
                _ => done_unexpected(),
            },
            Pending::Deleting { tag } => match reply {
                Reply::Deleted => Step::Done { result: Ok(self.without(tag.as_str())) },
                Reply::Missing => Step::Done {
                    result: Err(
                        Error::RefNotFound {
                            message: String::from_str("tag ").concat(tag.as_str()).concat(
                                " does not exist",
                            ),
                        },
                    ),
                },
                Reply::Failed { message } => {
                    let path = tag_path(self.base(), tag.as_str());
                    Step::Done {
                        result: Err(
                            Error::IOError {
                                message: object_message(tag.as_str(), &path, message.as_str()),
                            },
                        ),
                    }
                },
                _ => done_unexpected(),
            },
            Pending::Listing => match reply {
                Reply::Listed { file_names } => match tags_of_files(&file_names) {
                    Ok(names) => self.read_on(names, 0, TagSet::new(self.base().clone())),
                    Err(file_name) => {
                        let prefix = path_string(&base_tags_path(self.base()));
                        Step::Done {
                            result: Err(
                                Error::ParseError {
                                    message: String::from_str("tags at ").concat(
                                        prefix.as_str(),
                                    ).concat(": ").concat(
                                        file_name.concat(" is not the object of a tag").as_str(),
                                    ),
                                },
                            ),
                        }
                    },
                },
                Reply::Failed { message } => {
                    let prefix = path_string(&base_tags_path(self.base()));
                    Step::Done {
                        result: Err(
                            Error::IOError {
                                message: String::from_str("tags at ").concat(
                                    prefix.as_str(),
                                ).concat(": ").concat(message.as_str()),
                            },
                        ),
                    }
                },
                _ => done_unexpected(),
            },
            Pending::Reading { names, at, found } => {
                if at >= names.len() {
                    return done_unexpected();
                }
                let tag = names[at].clone();
                assert(tag@ == texts(names@)[at as int]);
                match reply {
                    Reply::Record { contents } => {
                        let found = found.with(tag.as_str(), contents);
                        self.read_on(names, at + 1, found)
                    },
                    Reply::Malformed { message } => {
                        let path = tag_path(self.base(), tag.as_str());
                        Step::Done {
                            result: Err(
                                Error::ParseError {
                                    message: object_message(tag.as_str(), &path, message.as_str()),
                                },
                            ),
                        }
                    },
                    Reply::Missing => {
                        let path = tag_path(self.base(), tag.as_str());
                        Step::Done {
                            result: Err(
                                Error::IOError {
                                    message: object_message(
                                        tag.as_str(),
                                        &path,
                                        "the object listed is gone",
                                    ),
                                },
                            ),
                        }
                    },
                    Reply::Failed { message } => {
                        let path = tag_path(self.base(), tag.as_str());
                        Step::Done {
                            result: Err(
                                Error::IOError {
                                    message: object_message(tag.as_str(), &path, message.as_str()),
                                },
                            ),
                        }
                    },
                    _ => done_unexpected(),
                }
            },
        }
    }
}

} // verus!
