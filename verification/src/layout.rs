//! The two layouts of the record store as mathematics: what a store holds,
//! what saving a record does to it and which registry is read back from it.
//!
//! Whatever the layout, a store holds a list of records, each under a key.
//! In the flattened layout the list is the manifest and the key is the path
//! of the watched file relative to the target folder. In the structured
//! layout the list holds one entry for each file below the output folder
//! and the key is that file's path relative to the output folder: the
//! watched file's relative path with the record extension added.

use crate::config::OutputStructure;
use crate::paths::{
    is_rooted, joined, lemma_joined_is_injective, lemma_key_names_its_path,
    lemma_record_file_names_its_file, lemma_watched_file_is_injective, names_file,
    names_record_file, record_file_of, relative_to, watched_file_of,
};
use crate::storage::FileRecordView;
use vstd::prelude::*;

verus! {

/// What a store holds: records under keys, in the order of the store.
pub type Stored = Seq<(Seq<char>, FileRecordView)>;

/// Why the record store turned a request down.
#[derive(Debug, Clone, Copy, PartialEq, Eq, Structural)]
pub enum StorageError {
    /// What was read from the store is not in the configured layout.
    LayoutMismatch,
    /// The file does not lie below the target folder.
    OutsideTarget,
    /// The path cannot name a file: its key is empty or ends in a separator.
    NotAFile,
    /// The path does not name a record file.
    NotARecordFile,
}

/// The key under which a layout keeps the record of the watched file
/// `path`, or the reason why it cannot keep one.
pub open spec fn store_key(layout: OutputStructure, target: Seq<char>, path: Seq<char>) -> Result<
    Seq<char>,
    StorageError,
> {
    match relative_to(target, path) {
        None => Err(StorageError::OutsideTarget),
        Some(key) => match layout {
            OutputStructure::Flattened => Ok(key),
            OutputStructure::Structured => if names_file(key) {
                Ok(record_file_of(key))
            } else {
                Err(StorageError::NotAFile)
            },
        },
    }
}

/// The watched file whose record a layout keeps under `key`; `None` for a
/// file of the structured layout that is no record file.
pub open spec fn stored_path(layout: OutputStructure, target: Seq<char>, key: Seq<char>) -> Option<
    Seq<char>,
> {
    match layout {
        OutputStructure::Flattened => Some(joined(target, key)),
        OutputStructure::Structured => if names_record_file(key) {
            Some(joined(target, watched_file_of(key)))
        } else {
            None
        },
    }
}

/// Whether some entry has the key.
pub open spec fn holds_key(entries: Stored, key: Seq<char>) -> bool {
    exists|i: int| 0 <= i < entries.len() && (#[trigger] entries[i]).0 == key
}

/// Whether the entry at `i` is the first one with the key.
pub open spec fn first_at(entries: Stored, key: Seq<char>, i: int) -> bool {
    &&& 0 <= i < entries.len()
    &&& entries[i].0 == key
    &&& forall|j: int| 0 <= j < i ==> (#[trigger] entries[j]).0 != key
}

/// The entries after a record was saved under a key: it stands in place of
/// the first entry with that key, or at the end where there was none.
pub open spec fn upserted(entries: Stored, key: Seq<char>, record: FileRecordView) -> Stored {
    if holds_key(entries, key) {
        entries.update(choose|i: int| first_at(entries, key, i), (key, record))
    } else {
        entries.push((key, record))
    }
}

/// The store after the record of the watched file `path` was saved.
pub open spec fn saved(
    layout: OutputStructure,
    target: Seq<char>,
    entries: Stored,
    path: Seq<char>,
    record: FileRecordView,
) -> Result<Stored, StorageError> {
    match store_key(layout, target, path) {
        Ok(key) => Ok(upserted(entries, key, record)),
        Err(e) => Err(e),
    }
}

/// The registry after the entries were read into it in their order: each
/// record is filed under its watched file's path, a later entry in place
/// of an earlier one for the same path.
pub open spec fn loaded_into(
    registry: Map<Seq<char>, FileRecordView>,
    layout: OutputStructure,
    target: Seq<char>,
    entries: Stored,
) -> Map<Seq<char>, FileRecordView>
    decreases entries.len(),
{
    if entries.len() == 0 {
        registry
    } else {
        let before = loaded_into(registry, layout, target, entries.drop_last());
        match stored_path(layout, target, entries.last().0) {
            Some(path) => before.insert(path, entries.last().1),
            None => before,
        }
    }
}

/// The registry that is read from a store.
pub open spec fn loaded(layout: OutputStructure, target: Seq<char>, entries: Stored) -> Map<
    Seq<char>,
    FileRecordView,
> {
    loaded_into(Map::empty(), layout, target, entries)
}

/// A store as the record store itself leaves it: no key is rooted and no
/// key occurs twice.
pub open spec fn well_formed(entries: Stored) -> bool {
    &&& forall|i: int| 0 <= i < entries.len() ==> !is_rooted((#[trigger] entries[i]).0)
    &&& forall|i: int, j: int|
        0 <= i < j < entries.len() ==> (#[trigger] entries[i]).0 != (#[trigger] entries[j]).0
}

/// The key of a watched file is not rooted and leads back to the file.
pub proof fn lemma_store_key(layout: OutputStructure, target: Seq<char>, path: Seq<char>)
    requires
        store_key(layout, target, path) is Ok,
    ensures
        !is_rooted(store_key(layout, target, path)->Ok_0),
        stored_path(layout, target, store_key(layout, target, path)->Ok_0) == Some(path),
{
    lemma_key_names_its_path(target, path);
    let key = relative_to(target, path)->0;
    if layout == OutputStructure::Structured {
        lemma_record_file_names_its_file(key);
    }
}

/// Two keys that are not rooted and stand for the same watched file are
/// the same key.
pub proof fn lemma_stored_path_is_injective(
    layout: OutputStructure,
    target: Seq<char>,
    a: Seq<char>,
    b: Seq<char>,
)
    requires
        !is_rooted(a),
        !is_rooted(b),
        stored_path(layout, target, a) is Some,
        stored_path(layout, target, a) == stored_path(layout, target, b),
    ensures
        a == b,
{
    match layout {
        OutputStructure::Flattened => {
            lemma_joined_is_injective(target, a, b);
        },
        OutputStructure::Structured => {
            assert(watched_file_of(a)[0] == a[0]);
            assert(watched_file_of(b)[0] == b[0]);
            lemma_joined_is_injective(target, watched_file_of(a), watched_file_of(b));
            lemma_watched_file_is_injective(a, b);
        },
    }
}

/// What is read from a well-formed store: a path has a record if the
/// registry had one or some entry stands for the path, and the record is
/// that of the entry where there is one.
pub proof fn lemma_loaded_into(
    registry: Map<Seq<char>, FileRecordView>,
    layout: OutputStructure,
    target: Seq<char>,
    entries: Stored,
)
    requires
        well_formed(entries),
    ensures
        forall|path: Seq<char>| #[trigger]
            loaded_into(registry, layout, target, entries).dom().contains(path) <==> (
            registry.dom().contains(path) || exists|i: int|
                0 <= i < entries.len() && stored_path(layout, target, (#[trigger] entries[i]).0)
                    == Some(path)),
        forall|i: int|
            0 <= i < entries.len() && stored_path(layout, target, (#[trigger] entries[i]).0)
                is Some ==> loaded_into(registry, layout, target, entries)[stored_path(
                layout,
                target,
                entries[i].0,
            )->0] == entries[i].1,
        forall|path: Seq<char>|
            !(exists|i: int|
                0 <= i < entries.len() && stored_path(layout, target, (#[trigger] entries[i]).0)
                    == Some(path)) ==> (#[trigger] loaded_into(
                registry,
                layout,
                target,
                entries,
            )[path]) == registry[path],
    decreases entries.len(),
{
    if entries.len() > 0 {
        let rest = entries.drop_last();
        let last = entries.last();
        let n = rest.len() as int;
        assert(well_formed(rest)) by {
            assert forall|i: int| 0 <= i < rest.len() implies !is_rooted(
                (#[trigger] rest[i]).0,
            ) by {
                assert(rest[i] == entries[i]);
            }
            assert forall|i: int, j: int| 0 <= i < j < rest.len() implies (
            #[trigger] rest[i]).0 != (#[trigger] rest[j]).0 by {
                assert(rest[i] == entries[i]);
                assert(rest[j] == entries[j]);
            }
        }
        lemma_loaded_into(registry, layout, target, rest);
        let before = loaded_into(registry, layout, target, rest);
        let after = loaded_into(registry, layout, target, entries);
        assert forall|path: Seq<char>| #[trigger]
            after.dom().contains(path) <==> (registry.dom().contains(path) || exists|i: int|
                0 <= i < entries.len() && stored_path(layout, target, (#[trigger] entries[i]).0)
                    == Some(path)) by {
            if after.dom().contains(path) && !registry.dom().contains(path) {
                if before.dom().contains(path) {
                    let i = choose|i: int|
                        0 <= i < rest.len() && stored_path(layout, target, (#[trigger] rest[i]).0)
                            == Some(path);
                    assert(entries[i] == rest[i]);
                } else {
                    assert(stored_path(layout, target, entries[n].0) == Some(path));
                }
            }
            if exists|i: int|
                0 <= i < entries.len() && stored_path(layout, target, (#[trigger] entries[i]).0)
                    == Some(path) {
                let i = choose|i: int|
                    0 <= i < entries.len() && stored_path(layout, target, (#[trigger] entries[i]).0)
                        == Some(path);
                if i < n {
                    assert(rest[i] == entries[i]);
                    assert(before.dom().contains(path));
                }
            }
        }
        assert forall|i: int|
            0 <= i < entries.len() && stored_path(layout, target, (#[trigger] entries[i]).0)
                is Some implies after[stored_path(layout, target, entries[i].0)->0]
            == entries[i].1 by {
            if i < n {
                assert(rest[i] == entries[i]);
                let path = stored_path(layout, target, entries[i].0);
                if stored_path(layout, target, last.0) == path {
                    assert(entries[n].0 == last.0);
                    lemma_stored_path_is_injective(layout, target, entries[i].0, entries[n].0);
                }
            }
        }
        assert forall|path: Seq<char>|
            !(exists|i: int|
                0 <= i < entries.len() && stored_path(layout, target, (#[trigger] entries[i]).0)
                    == Some(path)) implies #[trigger] after[path] == registry[path] by {
            assert(stored_path(layout, target, entries[n].0) != Some(path));
            if exists|i: int|
                0 <= i < rest.len() && stored_path(layout, target, (#[trigger] rest[i]).0) == Some(
                    path,
                ) {
                let i = choose|i: int|
                    0 <= i < rest.len() && stored_path(layout, target, (#[trigger] rest[i]).0)
                        == Some(path);
                assert(entries[i] == rest[i]);
            }
        }
    }
}

/// Saving into a well-formed store leaves a well-formed store, and what
/// is read from it is what was read before with the saved record filed
/// under the file's path.
pub proof fn lemma_saved_then_loaded(
    registry: Map<Seq<char>, FileRecordView>,
    layout: OutputStructure,
    target: Seq<char>,
    entries: Stored,
    path: Seq<char>,
    record: FileRecordView,
)
    requires
        well_formed(entries),
        saved(layout, target, entries, path, record) is Ok,
    ensures
        well_formed(saved(layout, target, entries, path, record)->Ok_0),
        loaded_into(registry, layout, target, saved(layout, target, entries, path, record)->Ok_0)
            == loaded_into(registry, layout, target, entries).insert(path, record),
{
    let key = store_key(layout, target, path)->Ok_0;
    lemma_store_key(layout, target, path);
    let after = upserted(entries, key, record);
    let at: int = if holds_key(entries, key) {
        choose|i: int| first_at(entries, key, i)
    } else {
        entries.len() as int
    };
    if holds_key(entries, key) {
        let w = choose|i: int| 0 <= i < entries.len() && (#[trigger] entries[i]).0 == key;
        lemma_first_exists(entries, key, w);
    }
    assert(0 <= at < after.len() && after[at] == (key, record));
    assert forall|i: int| 0 <= i < after.len() && i != at implies after[i] == entries[i]
        && after[i].0 != key by {
        if holds_key(entries, key) {
            if i < at {
                assert(entries[i].0 != key);
            } else {
                assert(entries[at].0 != entries[i].0);
            }
        }
    }
    assert(well_formed(after)) by {
        assert forall|i: int| 0 <= i < after.len() implies !is_rooted((#[trigger] after[i]).0) by {
            if i != at {
                assert(after[i] == entries[i]);
            }
        }
        assert forall|i: int, j: int| 0 <= i < j < after.len() implies (#[trigger] after[i]).0 != (
        #[trigger] after[j]).0 by {
            if i != at && j != at {
                assert(after[i] == entries[i]);
                assert(after[j] == entries[j]);
            }
        }
    }
    lemma_loaded_into(registry, layout, target, entries);
    lemma_loaded_into(registry, layout, target, after);
    let old_map = loaded_into(registry, layout, target, entries);
    let new_map = loaded_into(registry, layout, target, after);
    let goal = old_map.insert(path, record);
    assert(stored_path(layout, target, after[at].0) == Some(path));
    assert forall|p: Seq<char>| new_map.dom().contains(p) <==> goal.dom().contains(p) by {
        if new_map.dom().contains(p) && !registry.dom().contains(p) && p != path {
            let i = choose|i: int|
                0 <= i < after.len() && stored_path(layout, target, (#[trigger] after[i]).0)
                    == Some(p);
            assert(i != at);
            assert(after[i] == entries[i]);
        }
        if old_map.dom().contains(p) && !registry.dom().contains(p) && p != path {
            let i = choose|i: int|
                0 <= i < entries.len() && stored_path(layout, target, (#[trigger] entries[i]).0)
                    == Some(p);
            if i == at {
                assert(entries[at].0 == key);
            }
            assert(after[i] == entries[i]);
        }
    }
    assert forall|p: Seq<char>| new_map.dom().contains(p) implies #[trigger] new_map[p]
        == goal[p] by {
        if p == path {
            assert(new_map[stored_path(layout, target, after[at].0)->0] == after[at].1);
        } else if exists|i: int|
            0 <= i < after.len() && stored_path(layout, target, (#[trigger] after[i]).0) == Some(
                p,
            ) {
            let i = choose|i: int|
                0 <= i < after.len() && stored_path(layout, target, (#[trigger] after[i]).0)
                    == Some(p);
            assert(i != at);
            assert(after[i] == entries[i]);
            assert(new_map[stored_path(layout, target, after[i].0)->0] == after[i].1);
            assert(old_map[stored_path(layout, target, entries[i].0)->0] == entries[i].1);
        } else {
            if exists|i: int|
                0 <= i < entries.len() && stored_path(layout, target, (#[trigger] entries[i]).0)
                    == Some(p) {
                let i = choose|i: int|
                    0 <= i < entries.len() && stored_path(
                        layout,
                        target,
                        (#[trigger] entries[i]).0,
                    ) == Some(p);
                if i == at {
                    assert(entries[at].0 == key);
                }
                assert(after[i] == entries[i]);
            }
        }
    }
    assert(new_map =~= goal);
}

/// Where some entry has the key, some entry is the first with it.
pub proof fn lemma_first_exists(entries: Stored, key: Seq<char>, i: int)
    requires
        0 <= i < entries.len(),
        entries[i].0 == key,
    ensures
        exists|j: int| first_at(entries, key, j),
    decreases i,
{
    if exists|j: int| 0 <= j < i && (#[trigger] entries[j]).0 == key {
        let j = choose|j: int| 0 <= j < i && (#[trigger] entries[j]).0 == key;
        lemma_first_exists(entries, key, j);
    } else {
        assert(first_at(entries, key, i));
    }
}

/// Round trip: a record saved into a well-formed store, in either layout,
/// is read back as it was saved, under the path of its file.
pub proof fn lemma_round_trip(
    layout: OutputStructure,
    target: Seq<char>,
    entries: Stored,
    path: Seq<char>,
    record: FileRecordView,
)
    requires
        well_formed(entries),
        saved(layout, target, entries, path, record) is Ok,
    ensures
        loaded(layout, target, saved(layout, target, entries, path, record)->Ok_0).dom().contains(
            path,
        ),
        loaded(layout, target, saved(layout, target, entries, path, record)->Ok_0)[path] == record,
{
    lemma_saved_then_loaded(Map::empty(), layout, target, entries, path, record);
}

/// The store after the records of several files were saved one after
/// another, or the first refusal.
pub open spec fn saved_all(
    layout: OutputStructure,
    target: Seq<char>,
    entries: Stored,
    files: Seq<(Seq<char>, FileRecordView)>,
) -> Result<Stored, StorageError>
    decreases files.len(),
{
    if files.len() == 0 {
        Ok(entries)
    } else {
        match saved_all(layout, target, entries, files.drop_last()) {
            Ok(before) => saved(layout, target, before, files.last().0, files.last().1),
            Err(e) => Err(e),
        }
    }
}

/// The registry after several records were filed one after another, each
/// under the path of its file.
pub open spec fn filed_all(
    registry: Map<Seq<char>, FileRecordView>,
    files: Seq<(Seq<char>, FileRecordView)>,
) -> Map<Seq<char>, FileRecordView>
    decreases files.len(),
{
    if files.len() == 0 {
        registry
    } else {
        filed_all(registry, files.drop_last()).insert(files.last().0, files.last().1)
    }
}

/// Saving the records of several files into a well-formed store, one
/// after another, and reading the store gives what filing the records
/// gives.
pub proof fn lemma_saved_all_then_loaded(
    layout: OutputStructure,
    target: Seq<char>,
    entries: Stored,
    files: Seq<(Seq<char>, FileRecordView)>,
)
    requires
        well_formed(entries),
        forall|i: int|
            0 <= i < files.len() ==> store_key(layout, target, (#[trigger] files[i]).0) is Ok,
    ensures
        saved_all(layout, target, entries, files) is Ok,
        well_formed(saved_all(layout, target, entries, files)->Ok_0),
        loaded(layout, target, saved_all(layout, target, entries, files)->Ok_0) == filed_all(
            loaded(layout, target, entries),
            files,
        ),
    decreases files.len(),
{
    if files.len() > 0 {
        let rest = files.drop_last();
        assert forall|i: int| 0 <= i < rest.len() implies store_key(
            layout,
            target,
            (#[trigger] rest[i]).0,
        ) is Ok by {
            assert(rest[i] == files[i]);
        }
        lemma_saved_all_then_loaded(layout, target, entries, rest);
        let before = saved_all(layout, target, entries, rest)->Ok_0;
        assert(store_key(layout, target, files[files.len() - 1].0) is Ok);
        lemma_saved_then_loaded(
            Map::empty(),
            layout,
            target,
            before,
            files.last().0,
            files.last().1,
        );
    }
}

/// The two layouts agree: the same records saved from nothing in the one
/// layout and in the other are read back as the same registry.
pub proof fn lemma_layouts_agree(target: Seq<char>, files: Seq<(Seq<char>, FileRecordView)>)
    requires
        forall|i: int|
            0 <= i < files.len() ==> store_key(
                OutputStructure::Structured,
                target,
                (#[trigger] files[i]).0,
            ) is Ok,
    ensures
        saved_all(OutputStructure::Flattened, target, Seq::empty(), files) is Ok,
        saved_all(OutputStructure::Structured, target, Seq::empty(), files) is Ok,
        loaded(
            OutputStructure::Flattened,
            target,
            saved_all(OutputStructure::Flattened, target, Seq::empty(), files)->Ok_0,
        ) == loaded(
            OutputStructure::Structured,
            target,
            saved_all(OutputStructure::Structured, target, Seq::empty(), files)->Ok_0,
        ),
{
    assert forall|i: int| 0 <= i < files.len() implies store_key(
        OutputStructure::Flattened,
        target,
        (#[trigger] files[i]).0,
    ) is Ok by {
        assert(store_key(OutputStructure::Structured, target, files[i].0) is Ok);
    }
    lemma_saved_all_then_loaded(OutputStructure::Flattened, target, Seq::empty(), files);
    lemma_saved_all_then_loaded(OutputStructure::Structured, target, Seq::empty(), files);
}

} // verus!
