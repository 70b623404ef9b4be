//! Lifecycle records of watched files and the rules that change them.

use crate::clock::current_time_millis;
use crate::config::OutputStructure;
use crate::layout::{
    first_at, holds_key, lemma_saved_then_loaded, loaded, loaded_into, saved, stored_path,
    upserted, well_formed, StorageError, Stored,
};
use crate::paths::{
    join_path, joined, names_record_file, record_file_path, relative_path, watched_file_of,
    watched_file_path,
};
use crate::registry::Registry;
use crate::text::opt_text;
use vstd::prelude::*;

verus! {

/// Where a file stands in its storage lifecycle.
#[derive(Debug, Clone, Copy, PartialEq, Eq, Structural)]
pub enum FileStatus {
    New,
    Uploading,
    Creating,
    Active,
    Failed,
    Expired,
}

/// How long a purchase is taken to be valid after its record was created,
/// in milliseconds (six days).
pub const VALIDITY_WINDOW_MILLIS: i64 = 518_400_000;

/// One hour in milliseconds.
pub const ONE_HOUR_MILLIS: i64 = 3_600_000;

/// The lifecycle record of one watched file. Times are milliseconds since
/// the Unix epoch.
#[derive(Debug)]
pub struct FileRecord {
    pub file_path: String,
    pub original_cid: Option<String>,
    pub storage_cid: Option<String>,
    pub purchase_id: Option<String>,
    pub created_at: i64,
    pub updated_at: i64,
    pub codex_endpoint: Option<String>,
    pub status: FileStatus,
    pub error: Option<String>,
}

/// The mathematical value of a [`FileRecord`].
pub ghost struct FileRecordView {
    pub file_path: Seq<char>,
    pub original_cid: Option<Seq<char>>,
    pub storage_cid: Option<Seq<char>>,
    pub purchase_id: Option<Seq<char>>,
    pub created_at: int,
    pub updated_at: int,
    pub codex_endpoint: Option<Seq<char>>,
    pub status: FileStatus,
    pub error: Option<Seq<char>>,
}

impl View for FileRecord {
    type V = FileRecordView;

    open spec fn view(&self) -> FileRecordView {
        FileRecordView {
            file_path: self.file_path@,
            original_cid: opt_text(self.original_cid),
            storage_cid: opt_text(self.storage_cid),
            purchase_id: opt_text(self.purchase_id),
            created_at: self.created_at as int,
            updated_at: self.updated_at as int,
            codex_endpoint: opt_text(self.codex_endpoint),
            status: self.status,
            error: opt_text(self.error),
        }
    }
}

/// Copies an optional string.
pub fn clone_opt_text(o: &Option<String>) -> (r: Option<String>)
    ensures
        opt_text(r) == opt_text(*o),
{
    match o {
        Some(s) => Some(s.clone()),
        None => None,
    }
}

impl Clone for FileRecord {
    fn clone(&self) -> (r: FileRecord)
        ensures
            r@ == self@,
    {
        FileRecord {
            file_path: self.file_path.clone(),
            original_cid: clone_opt_text(&self.original_cid),
            storage_cid: clone_opt_text(&self.storage_cid),
            purchase_id: clone_opt_text(&self.purchase_id),
            created_at: self.created_at,
            updated_at: self.updated_at,
            codex_endpoint: clone_opt_text(&self.codex_endpoint),
            status: self.status,
            error: clone_opt_text(&self.error),
        }
    }
}

impl FileRecordView {
    /// What holds of every record that the lifecycle produces: an `Active`
    /// record names its purchase, and a record that is `Uploading`,
    /// `Creating` or `Active` names the uploaded content.
    pub open spec fn consistent(self) -> bool {
        self.admits(self.status)
    }

    /// Whether the record, as it is, may take the status: it may be
    /// `Active` only if it names its purchase, and `Uploading`, `Creating`
    /// or `Active` only if it names the uploaded content.
    pub open spec fn admits(self, status: FileStatus) -> bool {
        &&& status == FileStatus::Active ==> self.purchase_id is Some
        &&& (status == FileStatus::Uploading || status == FileStatus::Creating || status
            == FileStatus::Active) ==> self.original_cid is Some
    }

    /// The record of a file seen for the first time at `now`.
    pub open spec fn fresh(file_path: Seq<char>, now: int) -> FileRecordView {
        FileRecordView {
            file_path,
            original_cid: None,
            storage_cid: None,
            purchase_id: None,
            created_at: now,
            updated_at: now,
            codex_endpoint: None,
            status: FileStatus::New,
            error: None,
        }
    }

    /// The record after its status and last error were set at `now`.
    pub open spec fn with_status(
        self,
        status: FileStatus,
        error: Option<Seq<char>>,
        now: int,
    ) -> FileRecordView {
        FileRecordView { status, error, updated_at: now, ..self }
    }

    /// The record after its file was uploaded at `now`: it holds the
    /// content id and the endpoint that took the file, is `Uploading` and
    /// holds no error.
    pub open spec fn with_upload(
        self,
        cid: Seq<char>,
        endpoint: Seq<char>,
        now: int,
    ) -> FileRecordView {
        FileRecordView {
            original_cid: Some(cid),
            codex_endpoint: Some(endpoint),
            status: FileStatus::Uploading,
            error: None,
            updated_at: now,
            ..self
        }
    }

    /// The record after a purchase was requested for it at `now`: it holds
    /// the purchase id and the content id of the request, is `Creating`
    /// and holds no error.
    pub open spec fn with_purchase(
        self,
        purchase_id: Seq<char>,
        storage_cid: Seq<char>,
        now: int,
    ) -> FileRecordView {
        FileRecordView {
            purchase_id: Some(purchase_id),
            storage_cid: Some(storage_cid),
            status: FileStatus::Creating,
            error: None,
            updated_at: now,
            ..self
        }
    }

    /// The record after its purchase was seen to have started at `now`: it
    /// is `Active` and holds no error.
    pub open spec fn activated(self, now: int) -> FileRecordView {
        FileRecordView { status: FileStatus::Active, error: None, updated_at: now, ..self }
    }

    /// Whether a new purchase cycle is due at `now`: always for a record
    /// that is `Failed` or `Expired`; for an `Active` one when less than
    /// `buffer` milliseconds of its validity window are left; never for a
    /// record that is still on its way.
    pub open spec fn renewal_due(self, buffer: int, now: int) -> bool {
        match self.status {
            FileStatus::Failed | FileStatus::Expired => true,
            FileStatus::Active => self.created_at + VALIDITY_WINDOW_MILLIS - now < buffer,
            _ => false,
        }
    }
}

/// Keeps the records of watched files in the output folder, in one of two
/// layouts.
#[derive(Debug)]
pub struct StorageManager {
    pub output_folder: String,
    pub output_structure: OutputStructure,
}

impl StorageManager {
    /// A record store that keeps its records in `output_folder`, in the
    /// given layout.
    pub fn new(output_folder: String, output_structure: OutputStructure) -> (m: StorageManager)
        ensures
            m.output_folder@ == output_folder@,
            m.output_structure == output_structure,
    {
        StorageManager { output_folder, output_structure }
    }

    /// The record of a file seen for the first time at `now`.
    pub fn create_new_record_at(&self, file_path: String, now: i64) -> (record: FileRecord)
        ensures
            record@ == FileRecordView::fresh(file_path@, now as int),
    {
        FileRecord {
            file_path,
            original_cid: None,
            storage_cid: None,
            purchase_id: None,
            created_at: now,
            updated_at: now,
            codex_endpoint: None,
            status: FileStatus::New,
            error: None,
        }
    }

    /// The record of a file seen for the first time now.
    pub fn create_new_record(&self, file_path: String) -> (record: FileRecord)
        ensures
            record@ == FileRecordView::fresh(file_path@, record.created_at as int),
    {
        let now = current_time_millis();
        self.create_new_record_at(file_path, now)
    }

    /// Sets the status and the last error of a record, at `now`. The
    /// record is consistent afterwards if and only if it admitted the
    /// status.
    pub fn update_record_status_at(
        &self,
        record: &mut FileRecord,
        status: FileStatus,
        error: Option<String>,
        now: i64,
    )
        ensures
            final(record)@ == old(record)@.with_status(status, opt_text(error), now as int),
            final(record)@.consistent() <==> old(record)@.admits(status),
    {
        record.status = status;
        record.error = error;
        record.updated_at = now;
    }

    /// Sets the status and the last error of a record, now.
    pub fn update_record_status(
        &self,
        record: &mut FileRecord,
        status: FileStatus,
        error: Option<String>,
    )
        ensures
            final(record)@ == old(record)@.with_status(
                status,
                opt_text(error),
                final(record).updated_at as int,
            ),
            final(record)@.consistent() <==> old(record)@.admits(status),
    {
        let now = current_time_millis();
        self.update_record_status_at(record, status, error, now);
    }

    /// Notes that the file was uploaded at `now`: the record holds the
    /// content id and the endpoint that took it, is `Uploading` and holds
    /// no error.
    pub fn update_record_upload_at(
        &self,
        record: &mut FileRecord,
        cid: String,
        endpoint: String,
        now: i64,
    )
        ensures
            final(record)@ == old(record)@.with_upload(cid@, endpoint@, now as int),
            final(record)@.consistent(),
    {
        record.original_cid = Some(cid);
        record.codex_endpoint = Some(endpoint);
        record.status = FileStatus::Uploading;
        record.error = None;
        record.updated_at = now;
    }

    /// Notes that the file was uploaded now.
    pub fn update_record_upload(&self, record: &mut FileRecord, cid: String, endpoint: String)
        ensures
            final(record)@ == old(record)@.with_upload(
                cid@,
                endpoint@,
                final(record).updated_at as int,
            ),
            final(record)@.consistent(),
    {
        let now = current_time_millis();
        self.update_record_upload_at(record, cid, endpoint, now);
    }

    /// Notes that a purchase was requested at `now`: the record holds the
    /// purchase id and the content id of the request, is `Creating` and
    /// holds no error. It is consistent afterwards if and only if it named
    /// the uploaded content.
    pub fn update_record_purchase_at(
        &self,
        record: &mut FileRecord,
        purchase_id: String,
        storage_cid: String,
        now: i64,
    )
        ensures
            final(record)@ == old(record)@.with_purchase(purchase_id@, storage_cid@, now as int),
            final(record)@.consistent() <==> old(record)@.admits(FileStatus::Creating),
    {
        record.purchase_id = Some(purchase_id);
        record.storage_cid = Some(storage_cid);
        record.status = FileStatus::Creating;
        record.error = None;
        record.updated_at = now;
    }

    /// Notes that a purchase was requested now.
    pub fn update_record_purchase(
        &self,
        record: &mut FileRecord,
        purchase_id: String,
        storage_cid: String,
    )
        ensures
            final(record)@ == old(record)@.with_purchase(
                purchase_id@,
                storage_cid@,
                final(record).updated_at as int,
            ),
            final(record)@.consistent() <==> old(record)@.admits(FileStatus::Creating),
    {
        let now = current_time_millis();
        self.update_record_purchase_at(record, purchase_id, storage_cid, now);
    }

    /// Notes at `now` that the purchase has started: the record is `Active`
    /// and holds no error. It is consistent afterwards if and only if it
    /// named its purchase and the uploaded content.
    pub fn mark_record_active_at(&self, record: &mut FileRecord, now: i64)
        ensures
            final(record)@ == old(record)@.activated(now as int),
            final(record)@.consistent() <==> old(record)@.admits(FileStatus::Active),
    {
        record.status = FileStatus::Active;
        record.error = None;
        record.updated_at = now;
    }

    /// Notes now that the purchase has started.
    pub fn mark_record_active(&self, record: &mut FileRecord)
        ensures
            final(record)@ == old(record)@.activated(final(record).updated_at as int),
            final(record)@.consistent() <==> old(record)@.admits(FileStatus::Active),
    {
        let now = current_time_millis();
        self.mark_record_active_at(record, now);
    }

    /// Whether a new purchase cycle is due for the record at `now`, with
    /// `expiry_buffer` milliseconds of margin.
    pub fn needs_new_purchase_at(&self, record: &FileRecord, expiry_buffer: i64, now: i64) -> (due:
        bool)
        ensures
            due == record@.renewal_due(expiry_buffer as int, now as int),
    {
        match record.status {
            FileStatus::Failed | FileStatus::Expired => true,
            FileStatus::Active => {
                let left: i128 = record.created_at as i128 + VALIDITY_WINDOW_MILLIS as i128
                    - now as i128;
                left < expiry_buffer as i128
            },
            _ => false,
        }
    }

    /// Whether a new purchase cycle is due for the record now, with
    /// `expiry_buffer` milliseconds of margin.
    pub fn needs_new_purchase(&self, record: &FileRecord, expiry_buffer: i64) -> (due: bool)
        ensures
            exists|now: i64|
                due == #[trigger] record@.renewal_due(expiry_buffer as int, now as int),
    {
        let now = current_time_millis();
        self.needs_new_purchase_at(record, expiry_buffer, now)
    }
}

/// An entry of the record store: a record and the key it is kept under. In
/// the flattened layout the key is the watched file's path relative to the
/// target folder.
#[derive(Debug)]
pub struct FlattenedRecord {
    pub relative_path: String,
    pub record: FileRecord,
}

/// An entry of the structured layout: the key is the path of the record
/// file relative to the output folder.
pub type SidecarRecord = FlattenedRecord;

/// What the output folder holds, as the caller read it or is to write it.
#[derive(Debug)]
pub enum StoreImage {
    /// The entries of the manifest; none where there is no manifest.
    Flattened(Vec<FlattenedRecord>),
    /// One entry for each record file below the output folder.
    Structured(Vec<SidecarRecord>),
}

/// The entries of a store as mathematics.
pub open spec fn entries_view(entries: Seq<FlattenedRecord>) -> Stored {
    Seq::new(entries.len(), |i: int| (entries[i].relative_path@, entries[i].record@))
}

impl StoreImage {
    /// The layout that the image is in.
    pub open spec fn layout(self) -> OutputStructure {
        match self {
            StoreImage::Flattened(_) => OutputStructure::Flattened,
            StoreImage::Structured(_) => OutputStructure::Structured,
        }
    }

    /// The entries of the image.
    pub open spec fn entries(self) -> Stored {
        match self {
            StoreImage::Flattened(entries) => entries_view(entries@),
            StoreImage::Structured(entries) => entries_view(entries@),
        }
    }
}

/// Puts a record under a key: in place of the first entry with that key,
/// or at the end where there is none.
fn upsert(stored: Vec<FlattenedRecord>, key: String, record: FileRecord) -> (r: Vec<
    FlattenedRecord,
>)
    ensures
        entries_view(r@) == upserted(entries_view(stored@), key@, record@),
{
    let ghost before = entries_view(stored@);
    let ghost k = key@;
    let ghost v = record@;
    let mut entries = stored;
    let mut i: usize = 0;
    while i < entries.len()
        invariant
            i <= entries@.len(),
            entries_view(entries@) == before,
            before == entries_view(stored@),
            k == key@,
            v == record@,
            forall|j: int| 0 <= j < i ==> (#[trigger] before[j]).0 != k,
        decreases entries@.len() - i,
    {
        assert(before[i as int].0 == entries@[i as int].relative_path@);
        if entries[i].relative_path == key {
            entries.set(i, FlattenedRecord { relative_path: key, record });
            proof {
                assert(first_at(before, k, i as int));
                let c = choose|c: int| first_at(before, k, c);
                assert(c == i) by {
                    if c < i {
                        assert(before[c].0 != k);
                    } else if i < c {
                        assert(before[i as int].0 == k);
                    }
                }
                assert(entries_view(entries@) =~= before.update(i as int, (k, v)));
            }
            return entries;
        }
        i = i + 1;
    }
    entries.push(FlattenedRecord { relative_path: key, record });
    proof {
        assert(!holds_key(before, k));
        assert(entries_view(entries@) =~= before.push((k, v)));
    }
    entries
}

/// Reads the entries of a store into a registry, in their order.
fn load_entries(
    registry: &mut Registry,
    layout: OutputStructure,
    target_folder: &str,
    entries: &Vec<FlattenedRecord>,
)
    ensures
        final(registry)@ == loaded_into(
            old(registry)@,
            layout,
            target_folder@,
            entries_view(entries@),
        ),
{
    let ghost start = registry@;
    let ghost all = entries_view(entries@);
    let mut i: usize = 0;
    assert(all.take(0) =~= Seq::<(Seq<char>, FileRecordView)>::empty());
    while i < entries.len()
        invariant
            i <= entries@.len(),
            all == entries_view(entries@),
            registry@ == loaded_into(start, layout, target_folder@, all.take(i as int)),
        decreases entries@.len() - i,
    {
        let entry = &entries[i];
        proof {
            assert(all.take(i as int + 1).drop_last() =~= all.take(i as int));
            assert(all.take(i as int + 1).last() == (entry.relative_path@, entry.record@));
        }
        let key = entry.relative_path.as_str();
        let path = match layout {
            OutputStructure::Flattened => Some(join_path(target_folder, key)),
            OutputStructure::Structured => match watched_file_path(key) {
                Some(key) => Some(join_path(target_folder, key.as_str())),
                None => None,
            },
        };
        assert(opt_text(path) == stored_path(
            layout,
            target_folder@,
            entry.relative_path@,
        ));
        match path {
            Some(path) => {
                registry.insert(path, entry.record.clone());
            },
            None => {},
        }
        i = i + 1;
    }
    assert(all.take(i as int) =~= all);
}

impl StorageManager {
    /// The manifest after the record of the watched file `file_path` was
    /// saved in it.
    pub fn save_flattened_record(
        &self,
        target_folder: &str,
        file_path: &str,
        new_record: &FileRecord,
        records: Vec<FlattenedRecord>,
    ) -> (r: Result<Vec<FlattenedRecord>, StorageError>)
        ensures
            match saved(
                OutputStructure::Flattened,
                target_folder@,
                entries_view(records@),
                file_path@,
                new_record@,
            ) {
                Ok(entries) => r is Ok && entries_view(r->Ok_0@) == entries,
                Err(e) => r is Err && r->Err_0 == e,
            },
    {
        match relative_path(target_folder, file_path) {
            Some(key) => Ok(upsert(records, key, new_record.clone())),
            None => Err(StorageError::OutsideTarget),
        }
    }

    /// The record files after the record of the watched file `file_path`
    /// was saved among them.
    pub fn save_structured_record(
        &self,
        target_folder: &str,
        file_path: &str,
        record: &FileRecord,
        sidecars: Vec<SidecarRecord>,
    ) -> (r: Result<Vec<SidecarRecord>, StorageError>)
        ensures
            match saved(
                OutputStructure::Structured,
                target_folder@,
                entries_view(sidecars@),
                file_path@,
                record@,
            ) {
                Ok(entries) => r is Ok && entries_view(r->Ok_0@) == entries,
                Err(e) => r is Err && r->Err_0 == e,
            },
    {
        match relative_path(target_folder, file_path) {
            Some(relative) => match record_file_path(relative.as_str()) {
                Some(key) => Ok(upsert(sidecars, key, record.clone())),
                None => Err(StorageError::NotAFile),
            },
            None => Err(StorageError::OutsideTarget),
        }
    }

    /// The store after the record of the watched file `file_path` was
    /// saved in it. An image in another layout than the configured one is
    /// turned down. A well-formed store stays well-formed, and what is
    /// read back from it is what was read before with the record filed
    /// under the path of its file.
    pub fn save_record(
        &self,
        target_folder: &str,
        file_path: &str,
        record: &FileRecord,
        image: StoreImage,
    ) -> (r: Result<StoreImage, StorageError>)
        ensures
            image.layout() != self.output_structure ==> r is Err && r->Err_0
                == StorageError::LayoutMismatch,
            image.layout() == self.output_structure ==> match saved(
                image.layout(),
                target_folder@,
                image.entries(),
                file_path@,
                record@,
            ) {
                Ok(entries) => r is Ok && r->Ok_0.layout() == image.layout() && r->Ok_0.entries()
                    == entries,
                Err(e) => r is Err && r->Err_0 == e,
            },
            r is Ok && well_formed(image.entries()) ==> well_formed(r->Ok_0.entries()) && loaded(
                image.layout(),
                target_folder@,
                r->Ok_0.entries(),
            ) == loaded(image.layout(), target_folder@, image.entries()).insert(
                file_path@,
                record@,
            ),
    {
        proof {
            if image.layout() == self.output_structure && well_formed(image.entries()) && saved(
                image.layout(),
                target_folder@,
                image.entries(),
                file_path@,
                record@,
            ) is Ok {
                lemma_saved_then_loaded(
                    Map::empty(),
                    image.layout(),
                    target_folder@,
                    image.entries(),
                    file_path@,
                    record@,
                );
            }
        }
        match image {
            StoreImage::Flattened(entries) => {
                if self.output_structure != OutputStructure::Flattened {
                    return Err(StorageError::LayoutMismatch);
                }
                match self.save_flattened_record(target_folder, file_path, record, entries) {
                    Ok(entries) => Ok(StoreImage::Flattened(entries)),
                    Err(e) => Err(e),
                }
            },
            StoreImage::Structured(entries) => {
                if self.output_structure != OutputStructure::Structured {
                    return Err(StorageError::LayoutMismatch);
                }
                match self.save_structured_record(target_folder, file_path, record, entries) {
                    Ok(entries) => Ok(StoreImage::Structured(entries)),
                    Err(e) => Err(e),
                }
            },
        }
    }

    /// Reads the entries of a manifest into a registry, in their order.
    pub fn load_flattened_records(
        &self,
        records: &mut Registry,
        target_folder: &str,
        manifest: &Vec<FlattenedRecord>,
    )
        ensures
            final(records)@ == loaded_into(
                old(records)@,
                OutputStructure::Flattened,
                target_folder@,
                entries_view(manifest@),
            ),
    {
        load_entries(records, OutputStructure::Flattened, target_folder, manifest);
    }

    /// Reads the record files found below the output folder into a
    /// registry, in their order. A file that is no record file is passed
    /// over.
    pub fn load_structured_records(
        &self,
        records: &mut Registry,
        target_folder: &str,
        sidecars: &Vec<SidecarRecord>,
    )
        ensures
            final(records)@ == loaded_into(
                old(records)@,
                OutputStructure::Structured,
                target_folder@,
                entries_view(sidecars@),
            ),
    {
        load_entries(records, OutputStructure::Structured, target_folder, sidecars);
    }

    /// The registry that the store holds. An image in another layout than
    /// the configured one is turned down.
    pub fn load_existing_records(&self, target_folder: &str, image: &StoreImage) -> (r: Result<
        Registry,
        StorageError,
    >)
        ensures
            image.layout() != self.output_structure ==> r is Err && r->Err_0
                == StorageError::LayoutMismatch,
            image.layout() == self.output_structure ==> r is Ok && r->Ok_0@ == loaded(
                image.layout(),
                target_folder@,
                image.entries(),
            ),
    {
        let mut records = Registry::new();
        match image {
            StoreImage::Flattened(entries) => {
                if self.output_structure != OutputStructure::Flattened {
                    return Err(StorageError::LayoutMismatch);
                }
                self.load_flattened_records(&mut records, target_folder, entries);
            },
            StoreImage::Structured(entries) => {
                if self.output_structure != OutputStructure::Structured {
                    return Err(StorageError::LayoutMismatch);
                }
                self.load_structured_records(&mut records, target_folder, entries);
            },
        }
        Ok(records)
    }

    /// The path of the watched file to which the record file at
    /// `output_path`, relative to the output folder, belongs.
    pub fn output_path_to_original_path(&self, output_path: &str, target_folder: &str) -> (r:
        Result<String, StorageError>)
        ensures
            names_record_file(output_path@) ==> r is Ok && r->Ok_0@ == joined(
                target_folder@,
                watched_file_of(output_path@),
            ),
            !names_record_file(output_path@) ==> r is Err && r->Err_0
                == StorageError::NotARecordFile,
    {
        match watched_file_path(output_path) {
            Some(key) => Ok(join_path(target_folder, key.as_str())),
            None => Err(StorageError::NotARecordFile),
        }
    }
}

} // verus!
