//! Paths as text: how the path of a watched file is turned into the key
//! under which the record store holds its record, and back.
//!
//! A path is a string whose parts are separated by `/`. A path that begins
//! with `/` is rooted; a key never is.

use crate::text::opt_text;
use vstd::prelude::*;
use vstd::string::*;

verus! {

/// The extension that marks a record file in the structured layout.
pub open spec fn record_extension() -> Seq<char> {
    seq!['.', 'j', 's', 'o', 'n']
}

/// A path that begins at the root of the file system.
pub open spec fn is_rooted(path: Seq<char>) -> bool {
    path.len() > 0 && path[0] == '/'
}

/// What every path below `folder` begins with: the folder and one
/// separator. The empty folder stands for the current directory.
pub open spec fn folder_prefix(folder: Seq<char>) -> Seq<char> {
    if folder.len() == 0 || folder.last() == '/' {
        folder
    } else {
        folder.push('/')
    }
}

/// The path that `key` names below `folder`. A rooted key names itself.
pub open spec fn joined(folder: Seq<char>, key: Seq<char>) -> Seq<char> {
    if is_rooted(key) {
        key
    } else {
        folder_prefix(folder) + key
    }
}

/// The key of `path` below `folder`: what follows the folder's prefix,
/// where the path begins with that prefix and goes on without a second
/// separator.
pub open spec fn relative_to(folder: Seq<char>, path: Seq<char>) -> Option<Seq<char>> {
    let prefix = folder_prefix(folder);
    if prefix.is_prefix_of(path) && !is_rooted(path.skip(prefix.len() as int)) {
        Some(path.skip(prefix.len() as int))
    } else {
        None
    }
}

/// A key that can name a file: it is not empty and does not end in a
/// separator.
pub open spec fn names_file(key: Seq<char>) -> bool {
    key.len() > 0 && key.last() != '/'
}

/// The key of the record file that belongs to the watched file `key`.
pub open spec fn record_file_of(key: Seq<char>) -> Seq<char> {
    key + record_extension()
}

/// A path that names a record file: a file name that is not empty,
/// followed by the record extension.
pub open spec fn names_record_file(path: Seq<char>) -> bool {
    &&& path.len() > record_extension().len()
    &&& record_extension().is_suffix_of(path)
    &&& path[path.len() - record_extension().len() - 1] != '/'
}

/// The key of the watched file to which the record file `path` belongs.
pub open spec fn watched_file_of(path: Seq<char>) -> Seq<char> {
    path.take(path.len() - record_extension().len())
}

/// Whether `text` begins with `prefix`.
pub fn starts_with(text: &str, prefix: &str) -> (b: bool)
    ensures
        b == prefix@.is_prefix_of(text@),
{
    let n = prefix.unicode_len();
    if text.unicode_len() < n {
        return false;
    }
    let head = text.substring_char(0, n);
    let same = head.to_owned() == prefix.to_owned();
    proof {
        if same {
            assert(prefix@ =~= text@.subrange(0, prefix@.len() as int));
        }
    }
    same
}

/// Whether `text` ends with `suffix`.
pub fn ends_with(text: &str, suffix: &str) -> (b: bool)
    ensures
        b == suffix@.is_suffix_of(text@),
{
    let n = suffix.unicode_len();
    let len = text.unicode_len();
    if len < n {
        return false;
    }
    let tail = text.substring_char(len - n, len);
    let same = tail.to_owned() == suffix.to_owned();
    proof {
        if same {
            assert(suffix@ =~= text@.subrange(text@.len() - suffix@.len(), text@.len() as int));
        }
    }
    same
}

/// Whether `path` begins at the root of the file system.
pub fn rooted(path: &str) -> (b: bool)
    ensures
        b == is_rooted(path@),
{
    path.unicode_len() > 0 && path.get_char(0) == '/'
}

/// The path that `key` names below `folder`.
pub fn join_path(folder: &str, key: &str) -> (path: String)
    ensures
        path@ == joined(folder@, key@),
{
    if rooted(key) {
        return key.to_owned();
    }
    let mut path = folder.to_owned();
    let n = folder.unicode_len();
    if n > 0 && folder.get_char(n - 1) != '/' {
        proof {
            reveal_strlit("/");
        }
        path.append("/");
        assert(path@ =~= folder@.push('/'));
    }
    path.append(key);
    path
}

/// The key of `path` below `folder`, or `None` where the path does not lie
/// below the folder.
pub fn relative_path(folder: &str, path: &str) -> (key: Option<String>)
    ensures
        opt_text(key) == relative_to(folder@, path@),
{
    let prefix = join_path(folder, "");
    proof {
        reveal_strlit("");
        assert(prefix@ =~= folder_prefix(folder@));
    }
    if !starts_with(path, prefix.as_str()) {
        return None;
    }
    let rest = path.substring_char(prefix.as_str().unicode_len(), path.unicode_len());
    if rooted(rest) {
        return None;
    }
    Some(rest.to_owned())
}

/// Whether `path` names a record file.
pub fn is_record_file(path: &str) -> (b: bool)
    ensures
        b == names_record_file(path@),
{
    proof {
        reveal_strlit(".json");
        assert(".json"@ =~= record_extension());
    }
    let len = path.unicode_len();
    if len <= 5 {
        return false;
    }
    ends_with(path, ".json") && path.get_char(len - 6) != '/'
}

/// The key of the record file that belongs to the watched file `key`, or
/// `None` where the key cannot name a file.
pub fn record_file_path(key: &str) -> (path: Option<String>)
    ensures
        opt_text(path) == if names_file(key@) {
            Some(record_file_of(key@))
        } else {
            None
        },
{
    let len = key.unicode_len();
    if len == 0 || key.get_char(len - 1) == '/' {
        return None;
    }
    proof {
        reveal_strlit(".json");
        assert(".json"@ =~= record_extension());
    }
    Some(key.to_owned().concat(".json"))
}

/// The key of the watched file to which the record file `path` belongs, or
/// `None` where the path does not name a record file.
pub fn watched_file_path(path: &str) -> (key: Option<String>)
    ensures
        opt_text(key) == if names_record_file(path@) {
            Some(watched_file_of(path@))
        } else {
            None
        },
{
    if !is_record_file(path) {
        return None;
    }
    let len = path.unicode_len();
    Some(path.substring_char(0, len - 5).to_owned())
}

/// A path below a folder, made into a key and back, is the same path.
pub proof fn lemma_key_names_its_path(folder: Seq<char>, path: Seq<char>)
    requires
        relative_to(folder, path) is Some,
    ensures
        joined(folder, relative_to(folder, path)->0) == path,
        !is_rooted(relative_to(folder, path)->0),
{
    let prefix = folder_prefix(folder);
    assert(prefix + path.skip(prefix.len() as int) =~= path);
}

/// A key that is not rooted, made into a path below a folder and back, is
/// the same key.
pub proof fn lemma_path_yields_its_key(folder: Seq<char>, key: Seq<char>)
    requires
        !is_rooted(key),
    ensures
        relative_to(folder, joined(folder, key)) == Some(key),
{
    let prefix = folder_prefix(folder);
    let path = prefix + key;
    assert(path.subrange(0, prefix.len() as int) =~= prefix);
    assert(path.skip(prefix.len() as int) =~= key);
}

/// Two keys that are not rooted and name the same path below one folder
/// are the same key.
pub proof fn lemma_joined_is_injective(folder: Seq<char>, a: Seq<char>, b: Seq<char>)
    requires
        !is_rooted(a),
        !is_rooted(b),
        joined(folder, a) == joined(folder, b),
    ensures
        a == b,
{
    lemma_path_yields_its_key(folder, a);
    lemma_path_yields_its_key(folder, b);
}

/// The record file of a watched file names a record file, is rooted only
/// if the watched file's key is, and leads back to that key.
pub proof fn lemma_record_file_names_its_file(key: Seq<char>)
    requires
        names_file(key),
    ensures
        names_record_file(record_file_of(key)),
        watched_file_of(record_file_of(key)) == key,
        is_rooted(record_file_of(key)) == is_rooted(key),
{
    let path = record_file_of(key);
    assert(path.subrange(path.len() - record_extension().len(), path.len() as int)
        =~= record_extension());
    assert(path.take(path.len() - record_extension().len()) =~= key);
}

/// Two record files that belong to the same watched file are the same.
pub proof fn lemma_watched_file_is_injective(a: Seq<char>, b: Seq<char>)
    requires
        names_record_file(a),
        names_record_file(b),
        watched_file_of(a) == watched_file_of(b),
    ensures
        a == b,
{
    let n = record_extension().len() as int;
    assert(a =~= a.take(a.len() - n) + a.subrange(a.len() - n, a.len() as int));
    assert(b =~= b.take(b.len() - n) + b.subrange(b.len() - n, b.len() as int));
}

} // verus!
