//! Object keys, folder prefixes and the targets of a batch.
//!
//! An object store is flat: a folder is no more than a prefix that ends in
//! the delimiter, and the objects "in" it are the objects whose keys start
//! with that prefix.

use crate::text::{chars_of, starts_with};
use vstd::prelude::*;
use vstd::string::StringExecFns;

verus! {

/// The character that separates the levels of a key.
pub const DELIMITER: char = '/';

/// The identity of a remote object, with what a listing told of it.
#[derive(Debug, PartialEq, Eq)]
pub struct ObjectKey {
    pub bucket: String,
    pub key: String,
    /// The size of the object in bytes.
    pub size: Option<u64>,
    /// When the object was last modified, in the store's own words.
    pub last_modified: Option<String>,
    pub etag: Option<String>,
}

/// What an [`ObjectKey`] stands for.
pub struct ObjectKeyView {
    pub bucket: Seq<char>,
    pub key: Seq<char>,
    pub size: Option<u64>,
    pub last_modified: Option<Seq<char>>,
    pub etag: Option<Seq<char>>,
}

impl View for ObjectKey {
    type V = ObjectKeyView;

    open spec fn view(&self) -> ObjectKeyView {
        ObjectKeyView {
            bucket: self.bucket@,
            key: self.key@,
            size: self.size,
            last_modified: match self.last_modified {
                Some(m) => Some(m@),
                None => None,
            },
            etag: match self.etag {
                Some(e) => Some(e@),
                None => None,
            },
        }
    }
}

impl ObjectKey {
    /// The object `key` of `bucket`, with nothing known of its contents.
    pub fn new(bucket: &str, key: &str) -> (r: ObjectKey)
        ensures
            r@ == (ObjectKeyView {
                bucket: bucket@,
                key: key@,
                size: None,
                last_modified: None,
                etag: None,
            }),
    {
        ObjectKey {
            bucket: String::from_str(bucket),
            key: String::from_str(key),
            size: None,
            last_modified: None,
            etag: None,
        }
    }
}

impl Clone for ObjectKey {
    fn clone(&self) -> (r: ObjectKey)
        ensures
            r@ == self@,
    {
        ObjectKey {
            bucket: self.bucket.clone(),
            key: self.key.clone(),
            size: self.size,
            last_modified: match &self.last_modified {
                Some(m) => Some(m.clone()),
                None => None,
            },
            etag: match &self.etag {
                Some(e) => Some(e.clone()),
                None => None,
            },
        }
    }
}

/// A folder-style path: the prefix, within one bucket, that its objects share.
#[derive(Debug, PartialEq, Eq)]
pub struct FolderPrefix {
    pub bucket: String,
    pub prefix: String,
}

/// What a [`FolderPrefix`] stands for.
pub struct FolderPrefixView {
    pub bucket: Seq<char>,
    pub prefix: Seq<char>,
}

impl View for FolderPrefix {
    type V = FolderPrefixView;

    open spec fn view(&self) -> FolderPrefixView {
        FolderPrefixView { bucket: self.bucket@, prefix: self.prefix@ }
    }
}

impl FolderPrefix {
    /// The folder `prefix` of `bucket`.
    pub fn new(bucket: &str, prefix: &str) -> (r: FolderPrefix)
        ensures
            r@ == (FolderPrefixView { bucket: bucket@, prefix: prefix@ }),
    {
        FolderPrefix { bucket: String::from_str(bucket), prefix: String::from_str(prefix) }
    }
}

impl Clone for FolderPrefix {
    fn clone(&self) -> (r: FolderPrefix)
        ensures
            r@ == self@,
    {
        FolderPrefix { bucket: self.bucket.clone(), prefix: self.prefix.clone() }
    }
}

/// What a request names: one object, or every object under a prefix.
#[derive(Debug, PartialEq, Eq)]
pub enum Target {
    Object(ObjectKey),
    Folder(FolderPrefix),
}

/// What a [`Target`] stands for.
pub enum TargetView {
    Object(ObjectKeyView),
    Folder(FolderPrefixView),
}

impl View for Target {
    type V = TargetView;

    open spec fn view(&self) -> TargetView {
        match self {
            Target::Object(o) => TargetView::Object(o@),
            Target::Folder(f) => TargetView::Folder(f@),
        }
    }
}

impl Clone for Target {
    fn clone(&self) -> (r: Target)
        ensures
            r@ == self@,
    {
        match self {
            Target::Object(o) => Target::Object(o.clone()),
            Target::Folder(f) => Target::Folder(f.clone()),
        }
    }
}

impl TargetView {
    /// The bucket that the target lies in.
    pub open spec fn bucket(self) -> Seq<char> {
        match self {
            TargetView::Object(o) => o.bucket,
            TargetView::Folder(f) => f.bucket,
        }
    }

    /// The key of an object, the prefix of a folder.
    pub open spec fn path(self) -> Seq<char> {
        match self {
            TargetView::Object(o) => o.key,
            TargetView::Folder(f) => f.prefix,
        }
    }
}

impl Target {
    /// The bucket that the target lies in.
    pub fn bucket(&self) -> (r: &str)
        ensures
            r@ == self@.bucket(),
    {
        match self {
            Target::Object(o) => o.bucket.as_str(),
            Target::Folder(f) => f.bucket.as_str(),
        }
    }

    /// The key of an object, the prefix of a folder.
    pub fn path(&self) -> (r: &str)
        ensures
            r@ == self@.path(),
    {
        match self {
            Target::Object(o) => o.key.as_str(),
            Target::Folder(f) => f.prefix.as_str(),
        }
    }
}

/// The path names a folder: it ends in the delimiter.
pub open spec fn is_folder_path(path: Seq<char>) -> bool {
    path.len() > 0 && path.last() == DELIMITER
}

/// Tells whether `path` names a folder.
pub fn names_folder(path: &str) -> (r: bool)
    ensures
        r == is_folder_path(path@),
{
    let text = chars_of(path);
    text.len() > 0 && text[text.len() - 1] == DELIMITER
}

/// The key of the empty object that marks the folder `path`: `path` itself
/// where it ends in the delimiter, else `path` with the delimiter added.
pub open spec fn marker_of(path: Seq<char>) -> Seq<char> {
    if is_folder_path(path) {
        path
    } else {
        path.push(DELIMITER)
    }
}

/// The key under which the folder `path` is created.
pub fn folder_marker(path: &str) -> (r: String)
    ensures
        r@ == marker_of(path@),
{
    let mut out = String::from_str(path);
    if !names_folder(path) {
        proof {
            reveal_strlit("/");
        }
        out.append("/");
    }
    out
}

/// The key that `key` moves to when the prefix `from` is replaced by `to`:
/// defined for the keys that start with `from`.
pub open spec fn relocated(key: Seq<char>, from: Seq<char>, to: Seq<char>) -> Option<Seq<char>> {
    if from.is_prefix_of(key) {
        Some(to + key.skip(from.len() as int))
    } else {
        None
    }
}

/// The destination of `key` when the source prefix `from` is replaced by the
/// destination prefix `to`; `None` for a key outside `from`.
pub fn destination_key(key: &str, from: &str, to: &str) -> (r: Option<String>)
    ensures
        match r {
            Some(d) => relocated(key@, from@, to@) == Some(d@),
            None => relocated(key@, from@, to@) is None,
        },
{
    let text = chars_of(key);
    let head = chars_of(from);
    if starts_with(&text, &head) {
        let rest = key.substring_char(head.len(), text.len());
        let mut out = String::from_str(to);
        out.append(rest);
        Some(out)
    } else {
        None
    }
}

} // verus!
