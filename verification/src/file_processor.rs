//! The lifecycle orchestrator: drives one file through upload, purchase
//! request and purchase confirmation.
//!
//! The orchestrator makes no remote call itself. Each of its functions
//! takes what the caller reports, changes the registry and answers with a
//! [`Directive`]: the record to write to the store, if any, and what to
//! do next. The caller writes the record, does as it is told and reports
//! back with the function that belongs to what it did. What each step
//! does is said in [`crate::lifecycle`].

use crate::codex::{ClientError, ClientErrorView, PurchaseResponse, PurchaseStatus};
use crate::config::Config;
use crate::error::{retry_with_backoff, RetryStep};
use crate::layout::{loaded, StorageError};
use crate::lifecycle::{
    all_consistent, begun, begun_all, failure_noted, filed, lemma_begin_keeps_consistency,
    lemma_begun_all_files, lemma_purchase_keeps_consistency, lemma_start_keeps_consistency,
    lemma_upload_keeps_consistency, purchase_settled, record_of, reprocess_due, start_settled,
    upload_settled, DirectiveView, NextView, Outcome, ProcessErrorView, PurchaseErrorView,
    UploadErrorView,
};
use crate::registry::{active_purchases_of, pairs_view, Registry};
use crate::storage::{
    FileRecord, FileRecordView, FileStatus, StorageManager, StoreImage, ONE_HOUR_MILLIS,
};
use crate::text::texts_view;
use vstd::prelude::*;
use vstd::string::*;

verus! {

/// The retries that follow a failed upload or purchase request.
pub const MAX_RETRIES: u32 = 3;

/// The margin before the end of the validity window at which a purchase is
/// renewed, in milliseconds.
pub const RENEWAL_BUFFER_MILLIS: i64 = ONE_HOUR_MILLIS;

/// The seconds between two rounds of the purchase poller.
pub const POLL_INTERVAL_SECS: u64 = 300;

/// The smallest size of a file that is stored, in bytes: 1 MiB.
pub const MIN_FILE_SIZE: u64 = 1_048_576;

/// The size from which on a file is too large to be stored, in bytes:
/// 1 GiB.
pub const MAX_FILE_SIZE: u64 = 1_073_741_824;

/// Whether a file of this size is stored at all.
pub open spec fn eligible_size(size: u64) -> bool {
    MIN_FILE_SIZE <= size < MAX_FILE_SIZE
}

/// Whether a file of this size is stored at all.
pub fn is_eligible_size(size: u64) -> (b: bool)
    ensures
        b == eligible_size(size),
{
    MIN_FILE_SIZE <= size && size < MAX_FILE_SIZE
}

/// Why the processing of a file failed. Each variant holds the error
/// text of what failed.
#[derive(Debug)]
pub enum ProcessError {
    /// The file could not be read.
    Read(String),
    /// The upload failed, retries included.
    Upload(String),
    /// The purchase request failed, retries included.
    StorageRequest(String),
    /// The purchase did not start.
    PurchaseStart(String),
}

impl View for ProcessError {
    type V = ProcessErrorView;

    open spec fn view(&self) -> ProcessErrorView {
        match self {
            ProcessError::Read(e) => ProcessErrorView::Read(e@),
            ProcessError::Upload(e) => ProcessErrorView::Upload(e@),
            ProcessError::StorageRequest(e) => ProcessErrorView::StorageRequest(e@),
            ProcessError::PurchaseStart(e) => ProcessErrorView::PurchaseStart(e@),
        }
    }
}

impl ProcessError {
    /// The failure in words.
    pub fn message(&self) -> (text: String)
        ensures
            text@ == self@.message(),
    {
        match self {
            ProcessError::Read(e) => e.clone(),
            ProcessError::Upload(e) => String::from_str("Upload failed: ").concat(e.as_str()),
            ProcessError::StorageRequest(e) => String::from_str("Storage request failed: ").concat(
                e.as_str(),
            ),
            ProcessError::PurchaseStart(e) => String::from_str("Purchase failed to start: ").concat(
                e.as_str(),
            ),
        }
    }
}

/// What the caller is to do next for a file.
#[derive(Debug)]
pub enum Next {
    /// Nothing: there is nothing more to do for the file.
    Done,
    /// Nothing: the processing of the file has failed.
    Failed(ProcessError),
    /// Wait `delay_secs` seconds, upload the file and report with
    /// [`FileProcessor::upload_finished`].
    Upload { attempt: u32, delay_secs: u64 },
    /// Wait `delay_secs` seconds, request a purchase for the content and
    /// report with [`FileProcessor::purchase_finished`].
    CreatePurchase { cid: String, attempt: u32, delay_secs: u64 },
    /// Wait until the purchase has started, `timeout_secs` seconds at
    /// most, and report with [`FileProcessor::start_finished`].
    AwaitStart { purchase_id: String, timeout_secs: u64 },
}

impl View for Next {
    type V = NextView;

    open spec fn view(&self) -> NextView {
        match self {
            Next::Done => NextView::Done,
            Next::Failed(e) => NextView::Failed(e@),
            Next::Upload { attempt, delay_secs } => NextView::Upload {
                attempt: *attempt,
                delay_secs: *delay_secs,
            },
            Next::CreatePurchase { cid, attempt, delay_secs } => NextView::CreatePurchase {
                cid: cid@,
                attempt: *attempt,
                delay_secs: *delay_secs,
            },
            Next::AwaitStart { purchase_id, timeout_secs } => NextView::AwaitStart {
                purchase_id: purchase_id@,
                timeout_secs: *timeout_secs,
            },
        }
    }
}

/// The orchestrator's answer: the record to write to the store before
/// anything else, if there is one, and what to do next.
#[derive(Debug)]
pub struct Directive {
    pub persist: Option<FileRecord>,
    pub next: Next,
}

impl View for Directive {
    type V = DirectiveView;

    open spec fn view(&self) -> DirectiveView {
        DirectiveView {
            persist: match self.persist {
                Some(record) => Some(record@),
                None => None,
            },
            next: self.next@,
        }
    }
}

/// A successful upload: the content id and the label of the endpoint that
/// took the file.
#[derive(Debug)]
pub struct Uploaded {
    pub cid: String,
    pub endpoint: String,
}

/// Why an upload attempt failed. Each variant holds the error text.
#[derive(Debug)]
pub enum UploadError {
    /// The file could not be read.
    Read(String),
    /// The node or the network failed.
    Remote(String),
}

impl View for UploadError {
    type V = UploadErrorView;

    open spec fn view(&self) -> UploadErrorView {
        match self {
            UploadError::Read(e) => UploadErrorView::Read(e@),
            UploadError::Remote(e) => UploadErrorView::Remote(e@),
        }
    }
}

/// Why a purchase request failed.
#[derive(Debug)]
pub enum PurchaseError {
    /// The node turned the request down for want of funds.
    InsufficientFunds,
    /// The node or the network failed; the variant holds the error text.
    Remote(String),
}

impl View for PurchaseError {
    type V = PurchaseErrorView;

    open spec fn view(&self) -> PurchaseErrorView {
        match self {
            PurchaseError::InsufficientFunds => PurchaseErrorView::InsufficientFunds,
            PurchaseError::Remote(e) => PurchaseErrorView::Remote(e@),
        }
    }
}

/// The failure of a purchase request that a failed call to a node stands
/// for: want of funds is a failure of its own, any other failure is one
/// of the node or the network, with the failure in words as its text.
pub open spec fn purchase_failure(error: ClientErrorView) -> PurchaseErrorView {
    match error {
        ClientErrorView::InsufficientFunds => PurchaseErrorView::InsufficientFunds,
        _ => PurchaseErrorView::Remote(error.message()),
    }
}

impl PurchaseError {
    /// The failure of a purchase request that a failed call to a node
    /// stands for, as [`purchase_failure`] says.
    pub fn from_client(error: &ClientError) -> (failure: PurchaseError)
        ensures
            failure@ == purchase_failure(error@),
    {
        match error {
            ClientError::InsufficientFunds => PurchaseError::InsufficientFunds,
            _ => PurchaseError::Remote(error.message()),
        }
    }
}

/// A file found below the target folder, as the caller saw it.
#[derive(Debug)]
pub struct FileEntry {
    pub path: String,
    pub is_file: bool,
    pub size: u64,
}

/// The paths of the regular files of eligible size among the entries, in
/// their order.
pub open spec fn eligible_paths(entries: Seq<FileEntry>) -> Seq<Seq<char>>
    decreases entries.len(),
{
    if entries.len() == 0 {
        Seq::empty()
    } else {
        let before = eligible_paths(entries.drop_last());
        if entries.last().is_file && eligible_size(entries.last().size) {
            before.push(entries.last().path@)
        } else {
            before
        }
    }
}

/// Every eligible path belongs to a regular file of eligible size among
/// the entries.
pub proof fn lemma_eligible_paths(entries: Seq<FileEntry>, j: int)
    requires
        0 <= j < eligible_paths(entries).len(),
    ensures
        exists|i: int|
            0 <= i < entries.len() && (#[trigger] entries[i]).path@ == eligible_paths(entries)[j]
                && entries[i].is_file && eligible_size(entries[i].size),
    decreases entries.len(),
{
    let rest = entries.drop_last();
    let n = rest.len() as int;
    if j < eligible_paths(rest).len() {
        lemma_eligible_paths(rest, j);
        let i = choose|i: int|
            0 <= i < rest.len() && (#[trigger] rest[i]).path@ == eligible_paths(rest)[j]
                && rest[i].is_file && eligible_size(rest[i].size);
        assert(entries[i] == rest[i]);
    } else {
        assert(entries[n].path@ == eligible_paths(entries)[j]);
    }
}

/// A file whose processing has begun, with the orchestrator's first
/// answer.
#[derive(Debug)]
pub struct Begun {
    pub path: String,
    pub directive: Directive,
}

/// The values of a list of files whose processing has begun.
pub open spec fn begun_views(batch: Seq<Begun>) -> Seq<(Seq<char>, DirectiveView)> {
    Seq::new(batch.len(), |i: int| (batch[i].path@, batch[i].directive@))
}

/// One round of the purchase poller: the purchases to ask about, each
/// with the path of its file, and the seconds to sleep after the round.
#[derive(Debug)]
pub struct PollRound {
    pub purchases: Vec<(String, String)>,
    pub sleep_secs: u64,
}

/// The orchestrator: the configuration, the record store and the registry
/// of all known files.
#[derive(Debug)]
pub struct FileProcessor {
    pub config: Config,
    pub storage_manager: StorageManager,
    pub records: Registry,
}

impl FileProcessor {
    /// An orchestrator with an empty registry, whose record store keeps
    /// its records in the configured output folder and layout.
    pub fn new(config: Config) -> (p: FileProcessor)
        ensures
            p.config == config,
            p.storage_manager.output_folder@ == config.output_folder@,
            p.storage_manager.output_structure == config.output_structure,
            p.records@ == Map::<Seq<char>, FileRecordView>::empty(),
    {
        let storage_manager = StorageManager::new(
            config.output_folder.clone(),
            config.output_structure,
        );
        FileProcessor { config, storage_manager, records: Registry::new() }
    }

    /// What stays as it is in every step: the configuration and the record
    /// store.
    pub open spec fn same_setup(self, other: FileProcessor) -> bool {
        self.config == other.config && self.storage_manager == other.storage_manager
    }

    /// Replaces the registry by the one that the store holds. Where the
    /// image is in another layout than the configured one, nothing
    /// changes.
    pub fn initialize(&mut self, image: &StoreImage) -> (r: Result<(), StorageError>)
        ensures
            final(self).same_setup(*old(self)),
            image.layout() != old(self).storage_manager.output_structure ==> r is Err
                && r->Err_0 == StorageError::LayoutMismatch
                && final(self).records@ == old(self).records@,
            image.layout() == old(self).storage_manager.output_structure ==> r is Ok
                && final(self).records@ == loaded(
                image.layout(),
                old(self).config.target_folder@,
                image.entries(),
            ),
    {
        let target_folder = self.config.target_folder.as_str();
        match self.storage_manager.load_existing_records(target_folder, image) {
            Ok(records) => {
                self.records = records;
                Ok(())
            },
            Err(e) => Err(e),
        }
    }

    /// The files to process among those found below the target folder:
    /// the regular files of eligible size, in the order in which they were
    /// found.
    pub fn scan_target_folder(&self, entries: &Vec<FileEntry>) -> (files: Vec<String>)
        ensures
            texts_view(files@) == eligible_paths(entries@),
            forall|j: int|
                0 <= j < files@.len() ==> exists|i: int|
                    0 <= i < entries@.len() && (#[trigger] entries@[i]).path@ == (
                    #[trigger] files@[j])@ && entries@[i].is_file && eligible_size(
                        entries@[i].size,
                    ),
    {
        let mut files: Vec<String> = Vec::new();
        let mut i: usize = 0;
        assert(entries@.take(0) =~= Seq::<FileEntry>::empty());
        assert(texts_view(files@) =~= eligible_paths(entries@.take(0)));
        while i < entries.len()
            invariant
                i <= entries@.len(),
                texts_view(files@) == eligible_paths(entries@.take(i as int)),
            decreases entries@.len() - i,
        {
            let ghost before = files@;
            let entry = &entries[i];
            proof {
                assert(entries@.take(i as int + 1).drop_last() =~= entries@.take(i as int));
                assert(entries@.take(i as int + 1).last() == entry);
            }
            if entry.is_file && is_eligible_size(entry.size) {
                files.push(entry.path.clone());
                assert(texts_view(files@) =~= texts_view(before).push(
                    entry.path@,
                ));
            }
            i = i + 1;
        }
        assert(entries@.take(i as int) =~= entries@);
        proof {
            assert forall|j: int| 0 <= j < files@.len() implies exists|i: int|
                0 <= i < entries@.len() && (#[trigger] entries@[i]).path@ == (#[trigger] files@[j])@
                    && entries@[i].is_file && eligible_size(entries@[i].size) by {
                assert(texts_view(files@)[j] == files@[j]@);
                lemma_eligible_paths(entries@, j);
            }
        }
        files
    }

    /// A copy of the record of a file, or the record of a file seen for
    /// the first time at `now` where the registry has none.
    fn record_for(&self, file_path: &str, now: i64) -> (record: FileRecord)
        ensures
            record@ == record_of(self.records@, file_path@, now as int),
    {
        match self.records.get(file_path) {
            Some(record) => record,
            None => self.storage_manager.create_new_record_at(file_path.to_owned(), now),
        }
    }

    /// Files a changed record and answers that it is to be written to the
    /// store.
    fn file(&mut self, file_path: &str, record: FileRecord, next: Next) -> (d: Directive)
        ensures
            final(self).same_setup(*old(self)),
            (Outcome { records: final(self).records@, directive: d@ }) == filed(
                old(self).records@,
                file_path@,
                record@,
                next@,
            ),
    {
        self.records.insert(file_path.to_owned(), record.clone());
        Directive { persist: Some(record), next }
    }

    /// Whether the record is due for renewal at `now`, with the margin of
    /// the orchestrator.
    pub fn needs_renewal(&self, record: &FileRecord, now: i64) -> (due: bool)
        ensures
            due == record@.renewal_due(RENEWAL_BUFFER_MILLIS as int, now as int),
    {
        self.storage_manager.needs_new_purchase_at(record, RENEWAL_BUFFER_MILLIS, now)
    }

    /// Begins to process a file at `now`, as [`begun`] says. Where no
    /// record was filed for the file, a new one is filed. An `Active`
    /// file that is not due for renewal is left as it is, and nothing is
    /// to be done; any other file is to be uploaded.
    pub fn process_file(&mut self, file_path: &str, now: i64) -> (d: Directive)
        ensures
            final(self).same_setup(*old(self)),
            (Outcome { records: final(self).records@, directive: d@ }) == begun(
                old(self).records@,
                file_path@,
                now as int,
            ),
            old(self).records@.dom().contains(file_path@) ==> final(self).records@
                == old(self).records@,
            all_consistent(old(self).records@) ==> all_consistent(final(self).records@),
    {
        let ghost before = self.records@;
        let record = self.record_for(file_path, now);
        if !self.records.contains_key(file_path) {
            self.records.insert(file_path.to_owned(), record.clone());
        }
        assert(self.records@ =~= before.insert(file_path@, record@));
        proof {
            if all_consistent(before) {
                lemma_begin_keeps_consistency(before, file_path@, now as int);
            }
        }
        if record.status == FileStatus::Active && !self.needs_renewal(&record, now) {
            Directive { persist: None, next: Next::Done }
        } else {
            Directive { persist: None, next: Next::Upload { attempt: 0, delay_secs: 0 } }
        }
    }

    /// Takes the outcome of the upload attempt with the number `attempt`,
    /// as [`upload_settled`] says: a file that could not be read fails at
    /// once; the upload is tried again after a failure of the node or the
    /// network, three times at most; a success is followed by the
    /// purchase request.
    pub fn upload_finished(
        &mut self,
        file_path: &str,
        attempt: u32,
        outcome: Result<Uploaded, UploadError>,
        now: i64,
    ) -> (d: Directive)
        ensures
            final(self).same_setup(*old(self)),
            (Outcome { records: final(self).records@, directive: d@ }) == upload_settled(
                old(self).records@,
                file_path@,
                attempt,
                upload_view(outcome),
                now as int,
            ),
            all_consistent(old(self).records@) ==> all_consistent(final(self).records@),
    {
        let ghost before = self.records@;
        proof {
            if all_consistent(before) {
                lemma_upload_keeps_consistency(
                    before,
                    file_path@,
                    attempt,
                    upload_view(outcome),
                    now as int,
                );
            }
        }
        let remote: Result<Uploaded, String> = match outcome {
            Err(UploadError::Read(error)) => {
                return Directive { persist: None, next: Next::Failed(ProcessError::Read(error)) };
            },
            Err(UploadError::Remote(error)) => Err(error),
            Ok(uploaded) => Ok(uploaded),
        };
        let mut record = self.record_for(file_path, now);
        match retry_with_backoff(remote, attempt, MAX_RETRIES) {
            RetryStep::Retry { delay_secs, attempt: next } => Directive {
                persist: None,
                next: Next::Upload { attempt: next, delay_secs },
            },
            RetryStep::Done(Ok(uploaded)) => {
                let cid = uploaded.cid.clone();
                self.storage_manager.update_record_upload_at(
                    &mut record,
                    uploaded.cid,
                    uploaded.endpoint,
                    now,
                );
                let next = Next::CreatePurchase { cid, attempt: 0, delay_secs: 0 };
                self.file(file_path, record, next)
            },
            RetryStep::Done(Err(error)) => {
                self.storage_manager.update_record_status_at(
                    &mut record,
                    FileStatus::Failed,
                    Some(error.clone()),
                    now,
                );
                self.file(file_path, record, Next::Failed(ProcessError::Upload(error)))
            },
        }
    }

    /// Takes the outcome of the purchase request with the number
    /// `attempt` for the content `cid`, as [`purchase_settled`] says: a
    /// request that was turned down for want of funds fails the file at
    /// once; the request is tried again after a failure of the node or
    /// the network, three times at most; a success is followed by the
    /// wait for the purchase to start, for as long as the configured
    /// expiry.
    pub fn purchase_finished(
        &mut self,
        file_path: &str,
        cid: String,
        attempt: u32,
        outcome: Result<PurchaseResponse, PurchaseError>,
        now: i64,
    ) -> (d: Directive)
        ensures
            final(self).same_setup(*old(self)),
            (Outcome { records: final(self).records@, directive: d@ }) == purchase_settled(
                old(self).records@,
                file_path@,
                cid@,
                attempt,
                purchase_view(outcome),
                (old(self).config.storage_params.expiry_minutes * 60) as u64,
                now as int,
            ),
            all_consistent(old(self).records@) ==> all_consistent(final(self).records@),
    {
        let ghost before = self.records@;
        let timeout_secs = self.config.expiry();
        proof {
            if all_consistent(before) {
                lemma_purchase_keeps_consistency(
                    before,
                    file_path@,
                    cid@,
                    attempt,
                    purchase_view(outcome),
                    timeout_secs,
                    now as int,
                );
            }
        }
        let mut record = self.record_for(file_path, now);
        let remote: Result<PurchaseResponse, String> = match outcome {
            Err(PurchaseError::InsufficientFunds) => {
                self.storage_manager.update_record_status_at(
                    &mut record,
                    FileStatus::Failed,
                    Some(String::from_str("Insufficient tokens to create storage request")),
                    now,
                );
                let error = ProcessError::StorageRequest(
                    String::from_str("Insufficient tokens to create storage request"),
                );
                return self.file(file_path, record, Next::Failed(error));
            },
            Err(PurchaseError::Remote(error)) => Err(error),
            Ok(purchase) => Ok(purchase),
        };
        match retry_with_backoff(remote, attempt, MAX_RETRIES) {
            RetryStep::Retry { delay_secs, attempt: next } => Directive {
                persist: None,
                next: Next::CreatePurchase { cid, attempt: next, delay_secs },
            },
            RetryStep::Done(Ok(purchase)) => {
                if record.original_cid.is_some() {
                    let purchase_id = purchase.purchase_id.clone();
                    self.storage_manager.update_record_purchase_at(
                        &mut record,
                        purchase.purchase_id,
                        purchase.request.content.cid,
                        now,
                    );
                    self.file(file_path, record, Next::AwaitStart { purchase_id, timeout_secs })
                } else {
                    self.storage_manager.update_record_status_at(
                        &mut record,
                        FileStatus::Failed,
                        Some(String::from_str("report does not fit the record")),
                        now,
                    );
                    self.file(
                        file_path,
                        record,
                        Next::Failed(
                            ProcessError::StorageRequest(
                                String::from_str("report does not fit the record"),
                            ),
                        ),
                    )
                }
            },
            RetryStep::Done(Err(error)) => {
                self.storage_manager.update_record_status_at(
                    &mut record,
                    FileStatus::Failed,
                    Some(error.clone()),
                    now,
                );
                self.file(file_path, record, Next::Failed(ProcessError::StorageRequest(error)))
            },
        }
    }

    /// Takes the end of the wait for a purchase to start, as
    /// [`start_settled`] says: a purchase that has started makes the file
    /// `Active`, any other end fails it.
    pub fn start_finished(&mut self, file_path: &str, outcome: Result<(), String>, now: i64) -> (d:
        Directive)
        ensures
            final(self).same_setup(*old(self)),
            (Outcome { records: final(self).records@, directive: d@ }) == start_settled(
                old(self).records@,
                file_path@,
                start_view(outcome),
                now as int,
            ),
            all_consistent(old(self).records@) ==> all_consistent(final(self).records@),
    {
        let ghost before = self.records@;
        proof {
            if all_consistent(before) {
                lemma_start_keeps_consistency(before, file_path@, start_view(outcome), now as int);
            }
        }
        let mut record = self.record_for(file_path, now);
        match outcome {
            Ok(_) => {
                if record.original_cid.is_some() && record.purchase_id.is_some() {
                    self.storage_manager.mark_record_active_at(&mut record, now);
                    self.file(file_path, record, Next::Done)
                } else {
                    self.storage_manager.update_record_status_at(
                        &mut record,
                        FileStatus::Failed,
                        Some(String::from_str("report does not fit the record")),
                        now,
                    );
                    self.file(
                        file_path,
                        record,
                        Next::Failed(
                            ProcessError::PurchaseStart(
                                String::from_str("report does not fit the record"),
                            ),
                        ),
                    )
                }
            },
            Err(error) => {
                self.storage_manager.update_record_status_at(
                    &mut record,
                    FileStatus::Failed,
                    Some(error.clone()),
                    now,
                );
                self.file(file_path, record, Next::Failed(ProcessError::PurchaseStart(error)))
            },
        }
    }

    /// Notes a failure that the caller met while it processed the file, as
    /// [`failure_noted`] says: the file's record is `Failed` with the
    /// error text and is to be written to the store.
    pub fn mark_failed(&mut self, file_path: &str, error: String, now: i64) -> (d: Directive)
        ensures
            final(self).same_setup(*old(self)),
            (Outcome { records: final(self).records@, directive: d@ }) == failure_noted(
                old(self).records@,
                file_path@,
                error@,
                now as int,
            ),
            all_consistent(old(self).records@) ==> all_consistent(final(self).records@),
    {
        let mut record = self.record_for(file_path, now);
        self.storage_manager.update_record_status_at(
            &mut record,
            FileStatus::Failed,
            Some(error),
            now,
        );
        self.file(file_path, record, Next::Done)
    }

    /// Begins to process each of the files in turn, as [`begun_all`] says,
    /// and answers with each file and what is to be done for it.
    pub fn begin_all(&mut self, files: Vec<String>, now: i64) -> (batch: Vec<Begun>)
        ensures
            final(self).same_setup(*old(self)),
            (final(self).records@, begun_views(batch@)) == begun_all(
                old(self).records@,
                texts_view(files@),
                now as int,
            ),
            all_consistent(old(self).records@) ==> all_consistent(final(self).records@),
    {
        let ghost start = *self;
        let ghost paths = texts_view(files@);
        let mut batch: Vec<Begun> = Vec::new();
        let mut i: usize = 0;
        assert(paths.take(0) =~= Seq::<Seq<char>>::empty());
        assert(begun_views(batch@) =~= Seq::<(Seq<char>, DirectiveView)>::empty());
        while i < files.len()
            invariant
                i <= files@.len(),
                paths == texts_view(files@),
                self.same_setup(start),
                (self.records@, begun_views(batch@)) == begun_all(
                    start.records@,
                    paths.take(i as int),
                    now as int,
                ),
                all_consistent(start.records@) ==> all_consistent(self.records@),
            decreases files@.len() - i,
        {
            let ghost before = begun_views(batch@);
            proof {
                assert(paths.take(i as int + 1).drop_last() =~= paths.take(i as int));
                assert(paths.take(i as int + 1).last() == files@[i as int]@);
            }
            let directive = self.process_file(files[i].as_str(), now);
            batch.push(Begun { path: files[i].clone(), directive });
            assert(begun_views(batch@) =~= before.push((files@[i as int]@, directive@)));
            i = i + 1;
        }
        assert(paths.take(i as int) =~= paths);
        batch
    }

    /// Begins to process every file to process among those found below
    /// the target folder: the regular files of eligible size, in the order
    /// in which they were found. No other file gets a record.
    pub fn process_files(&mut self, entries: &Vec<FileEntry>, now: i64) -> (batch: Vec<Begun>)
        ensures
            final(self).same_setup(*old(self)),
            (final(self).records@, begun_views(batch@)) == begun_all(
                old(self).records@,
                eligible_paths(entries@),
                now as int,
            ),
            all_consistent(old(self).records@) ==> all_consistent(final(self).records@),
            forall|path: Seq<char>| #[trigger]
                final(self).records@.dom().contains(path) ==> old(self).records@.dom().contains(
                    path,
                ) || exists|i: int|
                    0 <= i < entries@.len() && (#[trigger] entries@[i]).path@ == path
                        && entries@[i].is_file && eligible_size(entries@[i].size),
    {
        let files = self.scan_target_folder(entries);
        let ghost before = self.records@;
        let ghost paths = eligible_paths(entries@);
        let batch = self.begin_all(files, now);
        proof {
            lemma_begun_all_files(before, paths, now as int);
            assert forall|path: Seq<char>| #[trigger]
                self.records@.dom().contains(path) implies before.dom().contains(path)
                || exists|i: int|
                0 <= i < entries@.len() && (#[trigger] entries@[i]).path@ == path
                    && entries@[i].is_file && eligible_size(entries@[i].size) by {
                assert(begun_all(before, paths, now as int).0.dom().contains(path));
                if !before.dom().contains(path) {
                    let j = choose|j: int| 0 <= j < paths.len() && paths[j] == path;
                    lemma_eligible_paths(entries@, j);
                }
            }
        }
        batch
    }

    /// One round of the purchase poller: the purchases of all `Active`
    /// files, in the order in which the files were first filed, and the
    /// pause that follows the round.
    pub fn monitor_purchases(&self) -> (round: PollRound)
        ensures
            pairs_view(round.purchases@) == active_purchases_of(
                self.records.paths(),
                self.records@,
            ),
            round.sleep_secs == POLL_INTERVAL_SECS,
    {
        PollRound { purchases: self.records.active_purchases(), sleep_secs: POLL_INTERVAL_SECS }
    }

    /// Whether the poller is to hand the file to the orchestrator again,
    /// given what a node reported of its purchase, as [`reprocess_due`]
    /// says of the reported state.
    pub fn check_purchase_status(
        &self,
        file_path: &str,
        status: &PurchaseStatus,
        now: i64,
    ) -> (again: bool)
        ensures
            again == reprocess_due(self.records@, file_path@, status.state@, now as int),
    {
        if status.state == String::from_str("started") {
            match self.records.get(file_path) {
                Some(record) => self.needs_renewal(&record, now),
                None => false,
            }
        } else {
            status.state == String::from_str("failed") || status.state == String::from_str(
                "cancelled",
            ) || status.state == String::from_str("expired")
        }
    }
}

/// The value of the outcome of an upload attempt: the content id and the
/// label of the endpoint, or the failure.
pub open spec fn upload_view(outcome: Result<Uploaded, UploadError>) -> Result<
    (Seq<char>, Seq<char>),
    UploadErrorView,
> {
    match outcome {
        Ok(uploaded) => Ok((uploaded.cid@, uploaded.endpoint@)),
        Err(error) => Err(error@),
    }
}

/// The value of the outcome of a purchase request: the purchase id and
/// the content id of the request, or the failure.
pub open spec fn purchase_view(outcome: Result<PurchaseResponse, PurchaseError>) -> Result<
    (Seq<char>, Seq<char>),
    PurchaseErrorView,
> {
    match outcome {
        Ok(purchase) => Ok((purchase.purchase_id@, purchase.request.content.cid@)),
        Err(error) => Err(error@),
    }
}

/// The value of the end of a wait for a purchase to start.
pub open spec fn start_view(outcome: Result<(), String>) -> Result<(), Seq<char>> {
    match outcome {
        Ok(_) => Ok(()),
        Err(error) => Err(error@),
    }
}

} // verus!
