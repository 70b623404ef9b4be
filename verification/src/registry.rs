//! The registry: every known file's record, found by the file's path.

use crate::storage::{FileRecord, FileRecordView, FileStatus};
use vstd::prelude::*;

verus! {

/// A record together with the path it is filed under.
#[derive(Debug)]
struct RegistryEntry {
    path: String,
    record: FileRecord,
}

/// The records of all known files, each under its path, in the order in
/// which the paths were first filed. No path is filed twice.
#[derive(Debug)]
pub struct Registry {
    entries: Vec<RegistryEntry>,
}

/// Some place at which `key` is filed.
spec fn position(entries: Seq<RegistryEntry>, key: Seq<char>) -> int {
    choose|i: int| 0 <= i < entries.len() && (#[trigger] entries[i]).path@ == key
}

/// Whether `key` is filed.
spec fn filed(entries: Seq<RegistryEntry>, key: Seq<char>) -> bool {
    exists|i: int| 0 <= i < entries.len() && (#[trigger] entries[i]).path@ == key
}

/// No path is filed twice.
spec fn distinct(entries: Seq<RegistryEntry>) -> bool {
    forall|i: int, j: int|
        0 <= i < j < entries.len() ==> (#[trigger] entries[i]).path@ != (
        #[trigger] entries[j]).path@
}

/// The record of each filed path.
spec fn mapping(entries: Seq<RegistryEntry>) -> Map<Seq<char>, FileRecordView> {
    Map::new(|k: Seq<char>| filed(entries, k), |k: Seq<char>| entries[position(entries, k)].record@)
}

/// The filed paths in their order.
spec fn order(entries: Seq<RegistryEntry>) -> Seq<Seq<char>> {
    Seq::new(entries.len(), |i: int| entries[i].path@)
}

/// Where no path is filed twice, a path is found at its own place and the
/// record there is its record.
proof fn lemma_position(entries: Seq<RegistryEntry>, i: int)
    requires
        distinct(entries),
        0 <= i < entries.len(),
    ensures
        filed(entries, entries[i].path@),
        position(entries, entries[i].path@) == i,
        mapping(entries)[entries[i].path@] == entries[i].record@,
{
    let k = entries[i].path@;
    let p = position(entries, k);
    assert(0 <= p < entries.len() && entries[p].path@ == k);
    if p < i {
        assert(entries[p].path@ != entries[i].path@);
    } else if i < p {
        assert(entries[i].path@ != entries[p].path@);
    }
}

/// The pairs of path and purchase id of the records that are `Active` and
/// hold a purchase id, in the order of `paths`.
pub open spec fn active_purchases_of(
    paths: Seq<Seq<char>>,
    records: Map<Seq<char>, FileRecordView>,
) -> Seq<(Seq<char>, Seq<char>)>
    decreases paths.len(),
{
    if paths.len() == 0 {
        Seq::empty()
    } else {
        let before = active_purchases_of(paths.drop_last(), records);
        let path = paths.last();
        if records[path].status == FileStatus::Active && records[path].purchase_id is Some {
            before.push((path, records[path].purchase_id->0))
        } else {
            before
        }
    }
}

/// Every path whose record is `Active` and holds a purchase id is among
/// the active purchases, with that purchase id.
pub proof fn lemma_active_purchase_is_listed(
    paths: Seq<Seq<char>>,
    records: Map<Seq<char>, FileRecordView>,
    i: int,
)
    requires
        0 <= i < paths.len(),
        records[paths[i]].status == FileStatus::Active,
        records[paths[i]].purchase_id is Some,
    ensures
        active_purchases_of(paths, records).contains(
            (paths[i], records[paths[i]].purchase_id->0),
        ),
    decreases paths.len(),
{
    let rest = paths.drop_last();
    let before = active_purchases_of(rest, records);
    let all = active_purchases_of(paths, records);
    let wanted = (paths[i], records[paths[i]].purchase_id->0);
    if i < rest.len() {
        lemma_active_purchase_is_listed(rest, records, i);
        assert(rest[i] == paths[i]);
        let j = choose|j: int| 0 <= j < before.len() && before[j] == wanted;
        assert(all[j] == wanted);
    } else {
        assert(all[all.len() - 1] == wanted);
    }
}

/// The views of a list of pairs of strings.
pub open spec fn pairs_view(v: Seq<(String, String)>) -> Seq<(Seq<char>, Seq<char>)> {
    Seq::new(v.len(), |i: int| (v[i].0@, v[i].1@))
}

impl View for Registry {
    type V = Map<Seq<char>, FileRecordView>;

    closed spec fn view(&self) -> Map<Seq<char>, FileRecordView> {
        mapping(self.entries@)
    }
}

impl Registry {
    /// What holds of every registry: no path is filed twice.
    #[verifier::type_invariant]
    spec fn no_path_twice(self) -> bool {
        distinct(self.entries@)
    }

    /// The filed paths in the order in which they were first filed.
    pub closed spec fn paths(&self) -> Seq<Seq<char>> {
        order(self.entries@)
    }

    /// A registry without records.
    pub fn new() -> (r: Registry)
        ensures
            r@ == Map::<Seq<char>, FileRecordView>::empty(),
            r.paths() == Seq::<Seq<char>>::empty(),
    {
        let r = Registry { entries: Vec::new() };
        assert(r@ =~= Map::<Seq<char>, FileRecordView>::empty());
        assert(r.paths() =~= Seq::<Seq<char>>::empty());
        r
    }

    /// The number of records.
    pub fn len(&self) -> (n: usize)
        ensures
            n == self.paths().len(),
            n == self@.dom().len(),
            self@.dom().finite(),
            self.paths().no_duplicates(),
            self.paths().to_set() == self@.dom(),
    {
        proof {
            use_type_invariant(self);
            self.lemma_paths();
            self.paths().unique_seq_to_set();
        }
        self.entries.len()
    }

    /// The filed paths are exactly the paths that have a record, and none
    /// occurs twice among them.
    proof fn lemma_paths(&self)
        requires
            distinct(self.entries@),
        ensures
            self.paths().no_duplicates(),
            self.paths().to_set() == self@.dom(),
    {
        let entries = self.entries@;
        assert forall|i: int, j: int|
            0 <= i < self.paths().len() && 0 <= j < self.paths().len() && i != j implies
            self.paths()[i] != self.paths()[j] by {
            if i < j {
                assert(entries[i].path@ != entries[j].path@);
            } else {
                assert(entries[j].path@ != entries[i].path@);
            }
        }
        assert forall|k: Seq<char>| self.paths().to_set().contains(k) <==> self@.dom().contains(
            k,
        ) by {
            if self.paths().to_set().contains(k) {
                let i = choose|i: int| 0 <= i < self.paths().len() && self.paths()[i] == k;
                assert(entries[i].path@ == k);
            }
            if self@.dom().contains(k) {
                let i = position(entries, k);
                assert(self.paths()[i] == k);
            }
        }
        assert(self.paths().to_set() =~= self@.dom());
    }

    /// The place at which `path` is filed, if it is filed.
    fn find(&self, path: &str) -> (r: Option<usize>)
        ensures
            match r {
                Some(i) => i < self.entries@.len() && self.entries@[i as int].path@ == path@,
                None => !filed(self.entries@, path@),
            },
    {
        let needle = path.to_owned();
        let mut i: usize = 0;
        while i < self.entries.len()
            invariant
                i <= self.entries@.len(),
                needle@ == path@,
                forall|j: int| 0 <= j < i ==> (#[trigger] self.entries@[j]).path@ != path@,
            decreases self.entries@.len() - i,
        {
            if self.entries[i].path == needle {
                return Some(i);
            }
            i = i + 1;
        }
        None
    }

    /// Whether a record is filed under `path`.
    pub fn contains_key(&self, path: &str) -> (b: bool)
        ensures
            b == self@.dom().contains(path@),
    {
        self.find(path).is_some()
    }

    /// A copy of the record filed under `path`.
    pub fn get(&self, path: &str) -> (r: Option<FileRecord>)
        ensures
            match r {
                Some(record) => self@.dom().contains(path@) && record@ == self@[path@],
                None => !self@.dom().contains(path@),
            },
    {
        proof {
            use_type_invariant(self);
        }
        match self.find(path) {
            Some(i) => {
                proof {
                    lemma_position(self.entries@, i as int);
                }
                Some(self.entries[i].record.clone())
            },
            None => None,
        }
    }

    /// Files `record` under `path`, in place of the record that was filed
    /// there, if there was one. A path that is new comes last in the order.
    pub fn insert(&mut self, path: String, record: FileRecord)
        ensures
            final(self)@ == old(self)@.insert(path@, record@),
            final(self).paths() == if old(self)@.dom().contains(path@) {
                old(self).paths()
            } else {
                old(self).paths().push(path@)
            },
    {
        proof {
            use_type_invariant(&*self);
        }
        let ghost before = self.entries@;
        let ghost key = path@;
        let ghost value = record@;
        let found = self.find(path.as_str());
        // The entries are taken out while they change and put back at the
        // end: what is left here in between is an empty registry.
        let mut entries: Vec<RegistryEntry> = Vec::new();
        core::mem::swap(&mut self.entries, &mut entries);
        match found {
            Some(i) => {
                entries.set(i, RegistryEntry { path, record });
                proof {
                    let after = entries@;
                    assert(distinct(after)) by {
                        assert forall|a: int, b: int| 0 <= a < b < after.len() implies (
                        #[trigger] after[a]).path@ != (#[trigger] after[b]).path@ by {
                            assert(before[a].path@ != before[b].path@);
                        }
                    }
                    assert forall|k: Seq<char>| filed(after, k) <==> filed(before, k) by {
                        if filed(after, k) {
                            let j = position(after, k);
                            assert(before[j].path@ == k);
                        }
                        if filed(before, k) {
                            let j = position(before, k);
                            assert(after[j].path@ == k);
                        }
                    }
                    assert(filed(before, key)) by {
                        assert(before[i as int].path@ == key);
                    }
                    assert forall|k: Seq<char>| filed(after, k) implies #[trigger] mapping(after)[k]
                        == mapping(before).insert(key, value)[k] by {
                        let j = position(after, k);
                        lemma_position(after, j);
                        lemma_position(before, j);
                    }
                    assert(mapping(after) =~= mapping(before).insert(key, value));
                    assert(order(after) =~= order(before));
                }
            },
            None => {
                entries.push(RegistryEntry { path, record });
                proof {
                    let after = entries@;
                    let n = before.len() as int;
                    assert(distinct(after)) by {
                        assert forall|a: int, b: int| 0 <= a < b < after.len() implies (
                        #[trigger] after[a]).path@ != (#[trigger] after[b]).path@ by {
                            if b < n {
                                assert(before[a].path@ != before[b].path@);
                            } else {
                                assert(before[a].path@ != key);
                            }
                        }
                    }
                    assert forall|k: Seq<char>| filed(after, k) <==> (filed(before, k) || k
                        == key) by {
                        if filed(after, k) {
                            let j = position(after, k);
                            if j < n {
                                assert(before[j].path@ == k);
                            }
                        }
                        if filed(before, k) {
                            let j = position(before, k);
                            assert(after[j].path@ == k);
                        }
                        if k == key {
                            assert(after[n].path@ == k);
                        }
                    }
                    assert forall|k: Seq<char>| filed(after, k) implies #[trigger] mapping(after)[k]
                        == mapping(before).insert(key, value)[k] by {
                        let j = position(after, k);
                        lemma_position(after, j);
                        if j < n {
                            lemma_position(before, j);
                        }
                    }
                    assert(mapping(after) =~= mapping(before).insert(key, value));
                    assert(order(after) =~= order(before).push(key));
                }
            },
        }
        core::mem::swap(&mut self.entries, &mut entries);
    }

    /// The filed paths, in the order in which they were first filed.
    pub fn file_paths(&self) -> (r: Vec<String>)
        ensures
            crate::text::texts_view(r@) == self.paths(),
            self.paths().no_duplicates(),
            self.paths().to_set() == self@.dom(),
    {
        proof {
            use_type_invariant(self);
            self.lemma_paths();
        }
        let mut r: Vec<String> = Vec::new();
        let mut i: usize = 0;
        while i < self.entries.len()
            invariant
                i <= self.entries@.len(),
                r@.len() == i,
                forall|j: int| 0 <= j < i ==> r@[j]@ == self.entries@[j].path@,
            decreases self.entries@.len() - i,
        {
            r.push(self.entries[i].path.clone());
            i = i + 1;
        }
        assert(crate::text::texts_view(r@) =~= self.paths());
        r
    }

    /// The path and the purchase id of every record that is `Active` and
    /// holds a purchase id, in the order in which the paths were first
    /// filed.
    pub fn active_purchases(&self) -> (r: Vec<(String, String)>)
        ensures
            pairs_view(r@) == active_purchases_of(self.paths(), self@),
    {
        proof {
            use_type_invariant(self);
        }
        let mut r: Vec<(String, String)> = Vec::new();
        let mut i: usize = 0;
        assert(self.paths().take(0) =~= Seq::<Seq<char>>::empty());
        assert(pairs_view(r@) =~= active_purchases_of(self.paths().take(0), self@));
        while i < self.entries.len()
            invariant
                i <= self.entries@.len(),
                distinct(self.entries@),
                pairs_view(r@) == active_purchases_of(self.paths().take(i as int), self@),
            decreases self.entries@.len() - i,
        {
            let ghost before = r@;
            let entry = &self.entries[i];
            proof {
                lemma_position(self.entries@, i as int);
                assert(self.paths().take(i as int + 1).drop_last() =~= self.paths().take(i as int));
                assert(self.paths().take(i as int + 1).last() == entry.path@);
            }
            if entry.record.status == FileStatus::Active {
                match &entry.record.purchase_id {
                    Some(id) => {
                        r.push((entry.path.clone(), id.clone()));
                        assert(pairs_view(r@) =~= pairs_view(before).push((entry.path@, id@)));
                    },
                    None => {},
                }
            }
            i = i + 1;
        }
        assert(self.paths().take(i as int) =~= self.paths());
        r
    }
}

} // verus!
