//! The lifecycle of a file as mathematics: what each step of the
//! orchestrator does to the registry and what it answers, and what holds
//! of the steps.

use crate::error::{retry_step, RetryStep};
use crate::file_processor::{MAX_RETRIES, RENEWAL_BUFFER_MILLIS};
use crate::storage::{FileRecordView, FileStatus, VALIDITY_WINDOW_MILLIS};
use vstd::arithmetic::power2::pow2;
use vstd::prelude::*;

verus! {

/// The error text of a report that does not fit the record it is about.
pub open spec fn out_of_step_text() -> Seq<char> {
    "report does not fit the record"@
}

/// The mathematical value of a [`crate::file_processor::ProcessError`].
pub ghost enum ProcessErrorView {
    Read(Seq<char>),
    Upload(Seq<char>),
    StorageRequest(Seq<char>),
    PurchaseStart(Seq<char>),
}

impl ProcessErrorView {
    /// The failure in words: the error text of a file that could not be
    /// read as it came, any other after the name of the step.
    pub open spec fn message(self) -> Seq<char> {
        match self {
            ProcessErrorView::Read(e) => e,
            ProcessErrorView::Upload(e) => "Upload failed: "@ + e,
            ProcessErrorView::StorageRequest(e) => "Storage request failed: "@ + e,
            ProcessErrorView::PurchaseStart(e) => "Purchase failed to start: "@ + e,
        }
    }
}

/// The mathematical value of a [`crate::file_processor::Next`].
pub ghost enum NextView {
    Done,
    Failed(ProcessErrorView),
    Upload { attempt: u32, delay_secs: u64 },
    CreatePurchase { cid: Seq<char>, attempt: u32, delay_secs: u64 },
    AwaitStart { purchase_id: Seq<char>, timeout_secs: u64 },
}

/// The mathematical value of a [`crate::file_processor::Directive`].
pub ghost struct DirectiveView {
    pub persist: Option<FileRecordView>,
    pub next: NextView,
}

/// The mathematical value of an [`crate::file_processor::UploadError`].
pub ghost enum UploadErrorView {
    Read(Seq<char>),
    Remote(Seq<char>),
}

/// The mathematical value of a [`crate::file_processor::PurchaseError`].
pub ghost enum PurchaseErrorView {
    InsufficientFunds,
    Remote(Seq<char>),
}

/// The error text of a purchase request that was turned down for want of
/// funds.
pub open spec fn insufficient_funds_text() -> Seq<char> {
    "Insufficient tokens to create storage request"@
}

/// The registry after a step of the orchestrator, and its answer.
pub ghost struct Outcome {
    pub records: Map<Seq<char>, FileRecordView>,
    pub directive: DirectiveView,
}

/// The record of a file, or that of a file seen for the first time at
/// `now` where the registry has none.
pub open spec fn record_of(
    records: Map<Seq<char>, FileRecordView>,
    path: Seq<char>,
    now: int,
) -> FileRecordView {
    if records.dom().contains(path) {
        records[path]
    } else {
        FileRecordView::fresh(path, now)
    }
}

/// The step that files a changed record and has it written to the store.
pub open spec fn filed(
    records: Map<Seq<char>, FileRecordView>,
    path: Seq<char>,
    record: FileRecordView,
    next: NextView,
) -> Outcome {
    Outcome {
        records: records.insert(path, record),
        directive: DirectiveView { persist: Some(record), next },
    }
}

/// The first step for a file: its record is looked up, or made where
/// there is none. A file that is `Active` and not due for renewal is left
/// as it is; every other file is uploaded.
pub open spec fn begun(
    records: Map<Seq<char>, FileRecordView>,
    path: Seq<char>,
    now: int,
) -> Outcome {
    let record = record_of(records, path, now);
    Outcome {
        records: records.insert(path, record),
        directive: DirectiveView {
            persist: None,
            next: if record.status == FileStatus::Active && !record.renewal_due(
                RENEWAL_BUFFER_MILLIS as int,
                now,
            ) {
                NextView::Done
            } else {
                NextView::Upload { attempt: 0, delay_secs: 0 }
            },
        },
    }
}

/// The first step taken for each of the paths in turn: the registry after
/// the last of them, and each path with the answer it got.
pub open spec fn begun_all(
    records: Map<Seq<char>, FileRecordView>,
    paths: Seq<Seq<char>>,
    now: int,
) -> (Map<Seq<char>, FileRecordView>, Seq<(Seq<char>, DirectiveView)>)
    decreases paths.len(),
{
    if paths.len() == 0 {
        (records, Seq::empty())
    } else {
        let before = begun_all(records, paths.drop_last(), now);
        let step = begun(before.0, paths.last(), now);
        (step.records, before.1.push((paths.last(), step.directive)))
    }
}

/// The step after an upload attempt. A file that could not be read fails
/// at once, and its record stays as it is. A failure of the node or the
/// network is retried with backoff; after the last retry the record is
/// `Failed` with the error text. A success makes the record `Uploading`
/// and asks for the purchase.
pub open spec fn upload_settled(
    records: Map<Seq<char>, FileRecordView>,
    path: Seq<char>,
    attempt: u32,
    outcome: Result<(Seq<char>, Seq<char>), UploadErrorView>,
    now: int,
) -> Outcome {
    let record = record_of(records, path, now);
    match outcome {
        Err(UploadErrorView::Read(error)) => Outcome {
            records,
            directive: DirectiveView {
                persist: None,
                next: NextView::Failed(ProcessErrorView::Read(error)),
            },
        },
        Err(UploadErrorView::Remote(error)) => match retry_step(
            Err::<(Seq<char>, Seq<char>), Seq<char>>(error),
            attempt,
            MAX_RETRIES,
        ) {
            RetryStep::Retry { delay_secs, attempt: next } => Outcome {
                records,
                directive: DirectiveView {
                    persist: None,
                    next: NextView::Upload { attempt: next, delay_secs },
                },
            },
            RetryStep::Done(_) => filed(
                records,
                path,
                record.with_status(FileStatus::Failed, Some(error), now),
                NextView::Failed(ProcessErrorView::Upload(error)),
            ),
        },
        Ok(uploaded) => filed(
            records,
            path,
            record.with_upload(uploaded.0, uploaded.1, now),
            NextView::CreatePurchase { cid: uploaded.0, attempt: 0, delay_secs: 0 },
        ),
    }
}

/// The step after a purchase request for the content `cid`. A request
/// that was turned down for want of funds fails the file at once,
/// whatever the number of the attempt: the record is `Failed` with the
/// text that says so. A failure of the node or the network is retried
/// with backoff; after the last retry the record is `Failed` with the
/// error text. A success makes the record `Creating` and asks to wait for
/// the purchase to start. A success for a record that names no uploaded
/// content does not fit it, and fails the file.
pub open spec fn purchase_settled(
    records: Map<Seq<char>, FileRecordView>,
    path: Seq<char>,
    cid: Seq<char>,
    attempt: u32,
    outcome: Result<(Seq<char>, Seq<char>), PurchaseErrorView>,
    timeout_secs: u64,
    now: int,
) -> Outcome {
    let record = record_of(records, path, now);
    match outcome {
        Err(PurchaseErrorView::InsufficientFunds) => filed(
            records,
            path,
            record.with_status(FileStatus::Failed, Some(insufficient_funds_text()), now),
            NextView::Failed(ProcessErrorView::StorageRequest(insufficient_funds_text())),
        ),
        Err(PurchaseErrorView::Remote(error)) => match retry_step(
            Err::<(Seq<char>, Seq<char>), Seq<char>>(error),
            attempt,
            MAX_RETRIES,
        ) {
            RetryStep::Retry { delay_secs, attempt: next } => Outcome {
                records,
                directive: DirectiveView {
                    persist: None,
                    next: NextView::CreatePurchase { cid, attempt: next, delay_secs },
                },
            },
            RetryStep::Done(_) => filed(
                records,
                path,
                record.with_status(FileStatus::Failed, Some(error), now),
                NextView::Failed(ProcessErrorView::StorageRequest(error)),
            ),
        },
        Ok(purchase) => if record.original_cid is Some {
            filed(
                records,
                path,
                record.with_purchase(purchase.0, purchase.1, now),
                NextView::AwaitStart { purchase_id: purchase.0, timeout_secs },
            )
        } else {
            filed(
                records,
                path,
                record.with_status(FileStatus::Failed, Some(out_of_step_text()), now),
                NextView::Failed(ProcessErrorView::StorageRequest(out_of_step_text())),
            )
        },
    }
}

/// The step after the wait for a purchase to start. A purchase that has
/// started makes the record `Active`; any other end of the wait makes it
/// `Failed` with the reason. A started purchase for a record that names no
/// purchase or no uploaded content does not fit it, and fails the file.
pub open spec fn start_settled(
    records: Map<Seq<char>, FileRecordView>,
    path: Seq<char>,
    outcome: Result<(), Seq<char>>,
    now: int,
) -> Outcome {
    let record = record_of(records, path, now);
    match outcome {
        Ok(_) => if record.original_cid is Some && record.purchase_id is Some {
            filed(records, path, record.activated(now), NextView::Done)
        } else {
            filed(
                records,
                path,
                record.with_status(FileStatus::Failed, Some(out_of_step_text()), now),
                NextView::Failed(ProcessErrorView::PurchaseStart(out_of_step_text())),
            )
        },
        Err(error) => filed(
            records,
            path,
            record.with_status(FileStatus::Failed, Some(error), now),
            NextView::Failed(ProcessErrorView::PurchaseStart(error)),
        ),
    }
}

/// The step that notes a failure which the caller met while it processed
/// the file: the record is `Failed` with the error text.
pub open spec fn failure_noted(
    records: Map<Seq<char>, FileRecordView>,
    path: Seq<char>,
    error: Seq<char>,
    now: int,
) -> Outcome {
    filed(
        records,
        path,
        record_of(records, path, now).with_status(FileStatus::Failed, Some(error), now),
        NextView::Done,
    )
}

/// Every record of the registry is consistent.
pub open spec fn all_consistent(records: Map<Seq<char>, FileRecordView>) -> bool {
    forall|path: Seq<char>| records.dom().contains(path) ==> (#[trigger] records[path]).consistent()
}

/// Whether the poller hands a file to the orchestrator again, given the
/// state that a node reported of its purchase: where the purchase has
/// started, if the file has a record that is due for renewal; where it
/// was cancelled, has expired or has failed, in any case; in any other
/// state, never.
pub open spec fn reprocess_due(
    records: Map<Seq<char>, FileRecordView>,
    path: Seq<char>,
    state: Seq<char>,
    now: int,
) -> bool {
    if state == "started"@ {
        records.dom().contains(path) && records[path].renewal_due(
            RENEWAL_BUFFER_MILLIS as int,
            now,
        )
    } else {
        state == "failed"@ || state == "cancelled"@ || state == "expired"@
    }
}

/// The first step keeps every record consistent.
pub proof fn lemma_begin_keeps_consistency(
    records: Map<Seq<char>, FileRecordView>,
    path: Seq<char>,
    now: int,
)
    requires
        all_consistent(records),
    ensures
        all_consistent(begun(records, path, now).records),
{
    let after = begun(records, path, now).records;
    assert forall|p: Seq<char>| after.dom().contains(p) implies (
    #[trigger] after[p]).consistent() by {
        if p != path {
            assert(records[p].consistent());
        } else if records.dom().contains(path) {
            assert(records[path].consistent());
        }
    }
}

/// Filing a consistent record keeps every record consistent.
pub proof fn lemma_filed_keeps_consistency(
    records: Map<Seq<char>, FileRecordView>,
    path: Seq<char>,
    record: FileRecordView,
    next: NextView,
)
    requires
        all_consistent(records),
        record.consistent(),
    ensures
        all_consistent(filed(records, path, record, next).records),
{
    let after = filed(records, path, record, next).records;
    assert forall|p: Seq<char>| after.dom().contains(p) implies (
    #[trigger] after[p]).consistent() by {
        if p != path {
            assert(records[p].consistent());
        }
    }
}

/// The step after an upload attempt keeps every record consistent.
pub proof fn lemma_upload_keeps_consistency(
    records: Map<Seq<char>, FileRecordView>,
    path: Seq<char>,
    attempt: u32,
    outcome: Result<(Seq<char>, Seq<char>), UploadErrorView>,
    now: int,
)
    requires
        all_consistent(records),
    ensures
        all_consistent(upload_settled(records, path, attempt, outcome, now).records),
{
    let record = record_of(records, path, now);
    match outcome {
        Err(UploadErrorView::Read(_)) => {},
        Err(UploadErrorView::Remote(error)) => {
            lemma_filed_keeps_consistency(
                records,
                path,
                record.with_status(FileStatus::Failed, Some(error), now),
                NextView::Done,
            );
        },
        Ok(uploaded) => {
            lemma_filed_keeps_consistency(
                records,
                path,
                record.with_upload(uploaded.0, uploaded.1, now),
                NextView::Done,
            );
        },
    }
}

/// The step after a purchase request keeps every record consistent.
pub proof fn lemma_purchase_keeps_consistency(
    records: Map<Seq<char>, FileRecordView>,
    path: Seq<char>,
    cid: Seq<char>,
    attempt: u32,
    outcome: Result<(Seq<char>, Seq<char>), PurchaseErrorView>,
    timeout_secs: u64,
    now: int,
)
    requires
        all_consistent(records),
    ensures
        all_consistent(
            purchase_settled(records, path, cid, attempt, outcome, timeout_secs, now).records,
        ),
{
    let record = record_of(records, path, now);
    match outcome {
        Err(PurchaseErrorView::InsufficientFunds) => {
            lemma_filed_keeps_consistency(
                records,
                path,
                record.with_status(FileStatus::Failed, Some(insufficient_funds_text()), now),
                NextView::Done,
            );
        },
        Err(PurchaseErrorView::Remote(error)) => {
            lemma_filed_keeps_consistency(
                records,
                path,
                record.with_status(FileStatus::Failed, Some(error), now),
                NextView::Done,
            );
        },
        Ok(purchase) => {
            if record.original_cid is Some {
                lemma_filed_keeps_consistency(
                    records,
                    path,
                    record.with_purchase(purchase.0, purchase.1, now),
                    NextView::Done,
                );
            } else {
                lemma_filed_keeps_consistency(
                    records,
                    path,
                    record.with_status(FileStatus::Failed, Some(out_of_step_text()), now),
                    NextView::Done,
                );
            }
        },
    }
}

/// The step after the wait for a purchase keeps every record consistent.
pub proof fn lemma_start_keeps_consistency(
    records: Map<Seq<char>, FileRecordView>,
    path: Seq<char>,
    outcome: Result<(), Seq<char>>,
    now: int,
)
    requires
        all_consistent(records),
    ensures
        all_consistent(start_settled(records, path, outcome, now).records),
{
    let record = record_of(records, path, now);
    match outcome {
        Ok(_) => {
            if record.original_cid is Some && record.purchase_id is Some {
                lemma_filed_keeps_consistency(records, path, record.activated(now), NextView::Done);
            } else {
                lemma_filed_keeps_consistency(
                    records,
                    path,
                    record.with_status(FileStatus::Failed, Some(out_of_step_text()), now),
                    NextView::Done,
                );
            }
        },
        Err(error) => {
            lemma_filed_keeps_consistency(
                records,
                path,
                record.with_status(FileStatus::Failed, Some(error), now),
                NextView::Done,
            );
        },
    }
}

/// The first step for each of the paths files a record for each of them
/// and for no other path.
pub proof fn lemma_begun_all_files(
    records: Map<Seq<char>, FileRecordView>,
    paths: Seq<Seq<char>>,
    now: int,
)
    ensures
        forall|path: Seq<char>| #[trigger]
            begun_all(records, paths, now).0.dom().contains(path) <==> records.dom().contains(
                path,
            ) || paths.contains(path),
    decreases paths.len(),
{
    let after = begun_all(records, paths, now).0;
    if paths.len() == 0 {
        assert forall|path: Seq<char>| #[trigger]
            after.dom().contains(path) <==> records.dom().contains(path) || paths.contains(
                path,
            ) by {}
    } else {
        let rest = paths.drop_last();
        let last = paths.last();
        let before = begun_all(records, rest, now).0;
        lemma_begun_all_files(records, rest, now);
        assert(after == before.insert(last, record_of(before, last, now)));
        assert forall|path: Seq<char>| #[trigger]
            after.dom().contains(path) <==> records.dom().contains(path) || paths.contains(
                path,
            ) by {
            if paths.contains(path) {
                let i = choose|i: int| 0 <= i < paths.len() && paths[i] == path;
                if i < rest.len() {
                    assert(rest[i] == path);
                }
            }
            if rest.contains(path) {
                let i = choose|i: int| 0 <= i < rest.len() && rest[i] == path;
                assert(paths[i] == path);
            }
            if path == last {
                assert(paths[paths.len() - 1] == path);
            }
            assert(before.dom().contains(path) <==> records.dom().contains(path)
                || rest.contains(path));
        }
    }
}

/// Idempotence: a file that is `Active` and not due for renewal is left
/// as it is, however often it is processed: the registry stays the same,
/// nothing is written and nothing is to be done.
pub proof fn lemma_active_file_is_left_alone(
    records: Map<Seq<char>, FileRecordView>,
    path: Seq<char>,
    now: int,
)
    requires
        records.dom().contains(path),
        records[path].status == FileStatus::Active,
        !records[path].renewal_due(RENEWAL_BUFFER_MILLIS as int, now),
    ensures
        begun(records, path, now) == (Outcome {
            records,
            directive: DirectiveView { persist: None, next: NextView::Done },
        }),
        begun(begun(records, path, now).records, path, now) == begun(records, path, now),
{
    assert(records.insert(path, records[path]) =~= records);
}

/// A file whose upload, purchase request and purchase start all succeed
/// ends `Active` and without an error, with the content id of the upload,
/// the purchase id and the content id of the purchase, and its record is
/// written to the store.
pub proof fn lemma_stored_file(
    records: Map<Seq<char>, FileRecordView>,
    path: Seq<char>,
    uploaded: (Seq<char>, Seq<char>),
    purchase: (Seq<char>, Seq<char>),
    timeout_secs: u64,
    now: int,
)
    requires
        begun(records, path, now).directive.next == (NextView::Upload {
            attempt: 0,
            delay_secs: 0,
        }),
    ensures
        ({
            let first = begun(records, path, now);
            let second = upload_settled(first.records, path, 0, Ok(uploaded), now);
            let third = purchase_settled(
                second.records,
                path,
                uploaded.0,
                0,
                Ok(purchase),
                timeout_secs,
                now,
            );
            let last = start_settled(third.records, path, Ok(()), now);
            &&& second.directive.next == (NextView::CreatePurchase {
                cid: uploaded.0,
                attempt: 0,
                delay_secs: 0,
            })
            &&& third.directive.next == (NextView::AwaitStart {
                purchase_id: purchase.0,
                timeout_secs,
            })
            &&& last.directive.next == NextView::Done
            &&& last.directive.persist == Some(last.records[path])
            &&& last.records[path].status == FileStatus::Active
            &&& last.records[path].original_cid == Some(uploaded.0)
            &&& last.records[path].purchase_id == Some(purchase.0)
            &&& last.records[path].storage_cid == Some(purchase.1)
            &&& last.records[path].error is None
        }),
{
}

/// A failed upload is tried again while retries are left, after two to
/// the power of `attempt` seconds and with the registry as it was. After
/// the last retry the file has failed: its record is `Failed` with the
/// error text and is written to the store. No purchase is requested
/// either way.
pub proof fn lemma_failed_upload(
    records: Map<Seq<char>, FileRecordView>,
    path: Seq<char>,
    attempt: u32,
    error: Seq<char>,
    now: int,
)
    ensures
        ({
            let after = upload_settled(
                records,
                path,
                attempt,
                Err(UploadErrorView::Remote(error)),
                now,
            );
            &&& attempt < MAX_RETRIES ==> after.records == records && after.directive == (
            DirectiveView {
                persist: None,
                next: NextView::Upload {
                    attempt: (attempt + 1) as u32,
                    delay_secs: pow2(attempt as nat) as u64,
                },
            })
            &&& attempt >= MAX_RETRIES ==> after.records[path] == record_of(
                records,
                path,
                now,
            ).with_status(FileStatus::Failed, Some(error), now) && after.directive == (
            DirectiveView {
                persist: Some(after.records[path]),
                next: NextView::Failed(ProcessErrorView::Upload(error)),
            })
            &&& !(after.directive.next is CreatePurchase)
        }),
{
}

/// A purchase request that the node or the network fails is tried again
/// while retries are left, after two to the power of `attempt` seconds
/// and with the registry as it was. After the last retry the file has
/// failed: its record is `Failed` with the error text and is written to
/// the store, and it names the uploaded content as it did before.
pub proof fn lemma_failed_purchase(
    records: Map<Seq<char>, FileRecordView>,
    path: Seq<char>,
    cid: Seq<char>,
    attempt: u32,
    error: Seq<char>,
    timeout_secs: u64,
    now: int,
)
    ensures
        ({
            let before = record_of(records, path, now);
            let after = purchase_settled(
                records,
                path,
                cid,
                attempt,
                Err(PurchaseErrorView::Remote(error)),
                timeout_secs,
                now,
            );
            &&& attempt < MAX_RETRIES ==> after.records == records && after.directive == (
            DirectiveView {
                persist: None,
                next: NextView::CreatePurchase {
                    cid,
                    attempt: (attempt + 1) as u32,
                    delay_secs: pow2(attempt as nat) as u64,
                },
            })
            &&& attempt >= MAX_RETRIES ==> after.records[path] == before.with_status(
                FileStatus::Failed,
                Some(error),
                now,
            ) && after.records[path].original_cid == before.original_cid && after.directive == (
            DirectiveView {
                persist: Some(after.records[path]),
                next: NextView::Failed(ProcessErrorView::StorageRequest(error)),
            })
        }),
{
}

/// A purchase request that is turned down for want of funds is not tried
/// again, whatever the number of the attempt: the file has failed, its
/// record is `Failed` with the text that says so and is written to the
/// store, and it names the uploaded content as it did before.
pub proof fn lemma_insufficient_funds(
    records: Map<Seq<char>, FileRecordView>,
    path: Seq<char>,
    cid: Seq<char>,
    attempt: u32,
    timeout_secs: u64,
    now: int,
)
    ensures
        ({
            let before = record_of(records, path, now);
            let after = purchase_settled(
                records,
                path,
                cid,
                attempt,
                Err(PurchaseErrorView::InsufficientFunds),
                timeout_secs,
                now,
            );
            &&& after.records == records.insert(path, after.records[path])
            &&& after.records[path] == before.with_status(
                FileStatus::Failed,
                Some(insufficient_funds_text()),
                now,
            )
            &&& after.records[path].original_cid == before.original_cid
            &&& after.directive == (DirectiveView {
                persist: Some(after.records[path]),
                next: NextView::Failed(
                    ProcessErrorView::StorageRequest(insufficient_funds_text()),
                ),
            })
            &&& !(after.directive.next is CreatePurchase)
        }),
{
}

/// An `Active` file with less than the renewal margin of its validity
/// window left is due for renewal: the poller hands it to the
/// orchestrator again when its purchase is reported as started, and the
/// orchestrator begins with the upload.
pub proof fn lemma_old_purchase_is_renewed(
    records: Map<Seq<char>, FileRecordView>,
    path: Seq<char>,
    now: int,
)
    requires
        records.dom().contains(path),
        records[path].status == FileStatus::Active,
        records[path].created_at + VALIDITY_WINDOW_MILLIS - now < RENEWAL_BUFFER_MILLIS,
    ensures
        records[path].renewal_due(RENEWAL_BUFFER_MILLIS as int, now),
        reprocess_due(records, path, "started"@, now),
        begun(records, path, now) == (Outcome {
            records,
            directive: DirectiveView {
                persist: None,
                next: NextView::Upload { attempt: 0, delay_secs: 0 },
            },
        }),
{
    assert(records.insert(path, records[path]) =~= records);
}

} // verus!
