use filehog::codex::{
    Client, ContentInfo, PurchaseResponse, PurchaseStatus, StorageRequestInfo,
};
use filehog::config::{Config, OutputStructure, StorageParams};
use filehog::file_processor::{
    is_eligible_size, Directive, FileEntry, FileProcessor, Next, ProcessError, PurchaseError,
    UploadError, Uploaded, MAX_FILE_SIZE, MAX_RETRIES, MIN_FILE_SIZE, POLL_INTERVAL_SECS,
    RENEWAL_BUFFER_MILLIS,
};
use filehog::layout::StorageError;
use filehog::storage::{
    FileRecord, FileStatus, StoreImage, ONE_HOUR_MILLIS, VALIDITY_WINDOW_MILLIS,
};

const NOW: i64 = 1_700_000_000_000;

fn processor() -> FileProcessor {
    FileProcessor::new(Config {
        target_folder: String::from("/watch"),
        output_folder: String::from("/out"),
        output_structure: OutputStructure::Flattened,
        codex_endpoints: vec![String::from("http://n1"), String::from("http://n2")],
        storage_params: StorageParams::default(),
    })
}

fn uploaded(cid: &str) -> Result<Uploaded, UploadError> {
    Ok(Uploaded { cid: String::from(cid), endpoint: String::from("http://n1") })
}

fn remote(text: &str) -> Result<Uploaded, UploadError> {
    Err(UploadError::Remote(String::from(text)))
}

fn purchase(id: &str, cid: &str) -> Result<PurchaseResponse, PurchaseError> {
    Ok(PurchaseResponse {
        purchase_id: String::from(id),
        request: StorageRequestInfo { content: ContentInfo { cid: String::from(cid) } },
    })
}

fn reported(state: &str) -> PurchaseStatus {
    PurchaseStatus {
        state: String::from(state),
        request: StorageRequestInfo { content: ContentInfo { cid: String::from("cidA") } },
    }
}

fn same(a: &FileRecord, b: &FileRecord) -> bool {
    a.file_path == b.file_path
        && a.original_cid == b.original_cid
        && a.storage_cid == b.storage_cid
        && a.purchase_id == b.purchase_id
        && a.created_at == b.created_at
        && a.updated_at == b.updated_at
        && a.codex_endpoint == b.codex_endpoint
        && a.status == b.status
        && a.error == b.error
}

fn consistent(r: &FileRecord) -> bool {
    (r.status != FileStatus::Active || r.purchase_id.is_some())
        && (!(r.status == FileStatus::Uploading
            || r.status == FileStatus::Creating
            || r.status == FileStatus::Active)
            || r.original_cid.is_some())
}

fn all_consistent(p: &FileProcessor) -> bool {
    p.records.file_paths().iter().all(|path| consistent(&p.records.get(path).unwrap()))
}

fn persisted(p: &FileProcessor, d: &Directive, path: &str) -> bool {
    match &d.persist {
        Some(r) => same(r, &p.records.get(path).unwrap()),
        None => false,
    }
}

/// Drives a file to `Active` with the given ids, at time `at`.
fn store(p: &mut FileProcessor, path: &str, cid: &str, id: &str, at: i64) {
    let d = p.process_file(path, at);
    assert!(matches!(d.next, Next::Upload { attempt: 0, delay_secs: 0 }));
    let d = p.upload_finished(path, 0, uploaded(cid), at);
    assert!(matches!(d.next, Next::CreatePurchase { .. }));
    let d = p.purchase_finished(path, String::from(cid), 0, purchase(id, cid), at);
    assert!(matches!(d.next, Next::AwaitStart { .. }));
    let d = p.start_finished(path, Ok(()), at);
    assert!(matches!(d.next, Next::Done));
}

#[test]
fn new_orchestrator_keeps_its_records_where_the_configuration_says() {
    let p = processor();
    assert_eq!(p.records.len(), 0);
    assert_eq!(p.storage_manager.output_folder, "/out");
    assert_eq!(p.storage_manager.output_structure, OutputStructure::Flattened);
    assert_eq!(p.config.target_folder, "/watch");
}

#[test]
fn a_new_file_is_stored_step_by_step() {
    let mut p = processor();
    let path = "/watch/two_mib.bin";

    let d = p.process_file(path, NOW);
    assert!(d.persist.is_none());
    assert!(matches!(d.next, Next::Upload { attempt: 0, delay_secs: 0 }));
    let r = p.records.get(path).unwrap();
    assert_eq!(r.status, FileStatus::New);
    assert_eq!((r.created_at, r.updated_at), (NOW, NOW));
    assert_eq!(r.file_path, path);

    let d = p.upload_finished(path, 0, uploaded("cidA"), NOW + 1);
    match &d.next {
        Next::CreatePurchase { cid, attempt, delay_secs } => {
            assert_eq!(cid, "cidA");
            assert_eq!((*attempt, *delay_secs), (0, 0));
        }
        other => panic!("unexpected {:?}", other),
    }
    assert!(persisted(&p, &d, path));
    let r = p.records.get(path).unwrap();
    assert_eq!(r.status, FileStatus::Uploading);
    assert_eq!(r.original_cid.as_deref(), Some("cidA"));
    assert_eq!(r.codex_endpoint.as_deref(), Some("http://n1"));
    assert_eq!((r.created_at, r.updated_at), (NOW, NOW + 1));

    let d = p.purchase_finished(path, String::from("cidA"), 0, purchase("p1", "cidA"), NOW + 2);
    match &d.next {
        Next::AwaitStart { purchase_id, timeout_secs } => {
            assert_eq!(purchase_id, "p1");
            assert_eq!(*timeout_secs, 3600);
        }
        other => panic!("unexpected {:?}", other),
    }
    assert!(persisted(&p, &d, path));
    let r = p.records.get(path).unwrap();
    assert_eq!(r.status, FileStatus::Creating);
    assert_eq!(r.purchase_id.as_deref(), Some("p1"));
    assert_eq!(r.storage_cid.as_deref(), Some("cidA"));

    let d = p.start_finished(path, Ok(()), NOW + 3);
    assert!(matches!(d.next, Next::Done));
    assert!(persisted(&p, &d, path));
    let r = p.records.get(path).unwrap();
    assert_eq!(r.status, FileStatus::Active);
    assert_eq!(r.original_cid.as_deref(), Some("cidA"));
    assert_eq!(r.purchase_id.as_deref(), Some("p1"));
    assert_eq!(r.storage_cid.as_deref(), Some("cidA"));
    assert_eq!((r.created_at, r.updated_at), (NOW, NOW + 3));
    assert!(r.error.is_none());
    assert_eq!(p.records.len(), 1);
    assert!(all_consistent(&p));
}

#[test]
fn an_active_file_is_left_alone_twice() {
    let mut p = processor();
    let path = "/watch/a.bin";
    store(&mut p, path, "cidA", "p1", NOW);
    let before = p.records.get(path).unwrap();

    let d = p.process_file(path, NOW + 10);
    assert!(d.persist.is_none());
    assert!(matches!(d.next, Next::Done));
    assert!(same(&p.records.get(path).unwrap(), &before));
    let d = p.process_file(path, NOW + 10);
    assert!(d.persist.is_none());
    assert!(matches!(d.next, Next::Done));
    assert!(same(&p.records.get(path).unwrap(), &before));
    assert_eq!(p.records.get(path).unwrap().updated_at, NOW);
    assert_eq!(p.records.len(), 1);
}

#[test]
fn four_failed_uploads_fail_the_file() {
    let mut p = processor();
    let path = "/watch/a.bin";
    let mut d = p.process_file(path, NOW);
    let mut attempts = 0;
    let mut delays = Vec::new();
    loop {
        match d.next {
            Next::Upload { attempt, delay_secs } => {
                assert_eq!(attempt, attempts);
                delays.push(delay_secs);
                attempts += 1;
                d = p.upload_finished(path, attempt, remote("network down"), NOW + 5);
            }
            Next::Failed(ProcessError::Upload(ref e)) => {
                assert_eq!(e, "network down");
                break;
            }
            ref other => panic!("unexpected {:?}", other),
        }
        if attempts < 4 {
            assert!(d.persist.is_none());
            assert_eq!(p.records.get(path).unwrap().status, FileStatus::New);
        }
    }
    assert_eq!(attempts, 4);
    assert_eq!(attempts, MAX_RETRIES + 1);
    assert_eq!(delays, vec![0, 1, 2, 4]);
    assert!(persisted(&p, &d, path));
    let r = p.records.get(path).unwrap();
    assert_eq!(r.status, FileStatus::Failed);
    assert_eq!(r.error.as_deref(), Some("network down"));
    assert!(!r.error.as_deref().unwrap().is_empty());
    assert!(r.original_cid.is_none() && r.purchase_id.is_none());
    assert_eq!(r.updated_at, NOW + 5);
    assert!(all_consistent(&p));
}

#[test]
fn an_upload_that_succeeds_on_a_retry_goes_on() {
    let mut p = processor();
    let path = "/watch/a.bin";
    p.process_file(path, NOW);
    let d = p.upload_finished(path, 0, remote("x"), NOW);
    assert!(matches!(d.next, Next::Upload { attempt: 1, delay_secs: 1 }));
    let d = p.upload_finished(path, 1, remote("x"), NOW);
    assert!(matches!(d.next, Next::Upload { attempt: 2, delay_secs: 2 }));
    let d = p.upload_finished(path, 2, remote("x"), NOW);
    assert!(matches!(d.next, Next::Upload { attempt: 3, delay_secs: 4 }));
    let d = p.upload_finished(path, 3, uploaded("cidZ"), NOW);
    assert!(matches!(d.next, Next::CreatePurchase { attempt: 0, delay_secs: 0, .. }));
    assert_eq!(p.records.get(path).unwrap().status, FileStatus::Uploading);
}

#[test]
fn an_attempt_beyond_the_budget_is_the_last() {
    let mut p = processor();
    let d = p.upload_finished("/watch/a", 7, remote("late"), NOW);
    assert!(matches!(d.next, Next::Failed(ProcessError::Upload(_))));
    let late = Err(PurchaseError::Remote(String::from("late")));
    let d = p.purchase_finished("/watch/a", String::from("c"), u32::MAX, late, NOW);
    assert!(matches!(d.next, Next::Failed(ProcessError::StorageRequest(_))));
}

#[test]
fn payment_required_fails_the_file_and_keeps_the_upload() {
    for attempt in [0u32, 1, 2, 3, 9] {
        let mut p = processor();
        let path = "/watch/a.bin";
        p.process_file(path, NOW);
        p.upload_finished(path, 0, uploaded("cidA"), NOW + 1);
        let refused = Client::purchase_response(402, "payment required", "cidA").err().unwrap();
        assert_eq!(refused.message(), "Insufficient tokens to create storage request");
        let failure = PurchaseError::from_client(&refused);
        assert!(matches!(failure, PurchaseError::InsufficientFunds));
        let d = p.purchase_finished(path, String::from("cidA"), attempt, Err(failure), NOW + 2);
        match &d.next {
            Next::Failed(e) => {
                assert!(matches!(e, ProcessError::StorageRequest(_)));
                assert_eq!(
                    e.message(),
                    "Storage request failed: Insufficient tokens to create storage request"
                );
            }
            other => panic!("unexpected {:?}", other),
        }
        assert!(persisted(&p, &d, path));
        let r = p.records.get(path).unwrap();
        assert_eq!(r.status, FileStatus::Failed);
        assert_eq!(r.error.as_deref(), Some("Insufficient tokens to create storage request"));
        assert!(r.error.as_deref().unwrap().contains("Insufficient"));
        assert_eq!(r.original_cid.as_deref(), Some("cidA"));
        assert!(r.purchase_id.is_none());
        assert_eq!(r.updated_at, NOW + 2);
        assert!(all_consistent(&p));
    }
}

#[test]
fn a_failed_purchase_request_is_retried_three_times() {
    let mut p = processor();
    let path = "/watch/a.bin";
    p.process_file(path, NOW);
    p.upload_finished(path, 0, uploaded("cidA"), NOW + 1);
    let refused = Client::purchase_response(500, "busy", "cidA").err().unwrap();
    let text = refused.message();
    assert_eq!(text, "Storage request failed with status 500: busy");
    assert!(matches!(PurchaseError::from_client(&refused), PurchaseError::Remote(ref t)
        if *t == text));
    let failure = || Err(PurchaseError::Remote(String::from("busy")));
    let mut d = p.purchase_finished(path, String::from("cidA"), 0, failure(), NOW + 2);
    let mut calls = 1;
    let expected = [1u64, 2, 4];
    while let Next::CreatePurchase { ref cid, attempt, delay_secs } = d.next {
        assert_eq!(cid, "cidA");
        assert_eq!(delay_secs, expected[(attempt - 1) as usize]);
        assert!(d.persist.is_none());
        assert_eq!(p.records.get(path).unwrap().status, FileStatus::Uploading);
        calls += 1;
        let cid = cid.clone();
        d = p.purchase_finished(path, cid, attempt, failure(), NOW + 2);
    }
    assert_eq!(calls, 4);
    match &d.next {
        Next::Failed(e) => assert_eq!(e.message(), "Storage request failed: busy"),
        other => panic!("unexpected {:?}", other),
    }
    assert!(persisted(&p, &d, path));
    let r = p.records.get(path).unwrap();
    assert_eq!(r.status, FileStatus::Failed);
    assert_eq!(r.error.as_deref(), Some("busy"));
    assert_eq!(r.original_cid.as_deref(), Some("cidA"));
    assert!(r.purchase_id.is_none());
}

#[test]
fn a_failed_call_stands_for_a_failed_purchase_request() {
    let mut c = Client::new(Vec::new());
    let none = c.create_storage_request("c", &StorageParams::default()).err().unwrap();
    assert!(matches!(PurchaseError::from_client(&none), PurchaseError::Remote(ref t)
        if t == "No Codex endpoint is configured"));
    let refused = Client::purchase_response(401, "no", "c").err().unwrap();
    assert!(matches!(PurchaseError::from_client(&refused), PurchaseError::Remote(ref t)
        if t == "Storage request failed with status 401: no"));
    let funds = Client::purchase_response(402, "no", "c").err().unwrap();
    assert!(matches!(PurchaseError::from_client(&funds), PurchaseError::InsufficientFunds));
}

#[test]
fn a_purchase_that_does_not_start_fails_the_file() {
    let mut p = processor();
    let path = "/watch/a.bin";
    p.process_file(path, NOW);
    p.upload_finished(path, 0, uploaded("cidA"), NOW);
    p.purchase_finished(path, String::from("cidA"), 0, purchase("p1", "cidS"), NOW);
    let timeout = Err(String::from("Timeout waiting for purchase p1 to start"));
    let d = p.start_finished(path, timeout, NOW + 9);
    match &d.next {
        Next::Failed(e) => {
            assert_eq!(
                e.message(),
                "Purchase failed to start: Timeout waiting for purchase p1 to start"
            );
        }
        other => panic!("unexpected {:?}", other),
    }
    assert!(persisted(&p, &d, path));
    let r = p.records.get(path).unwrap();
    assert_eq!(r.status, FileStatus::Failed);
    assert_eq!(r.error.as_deref(), Some("Timeout waiting for purchase p1 to start"));
    assert_eq!(r.purchase_id.as_deref(), Some("p1"));
    assert_eq!(r.storage_cid.as_deref(), Some("cidS"));
    assert_eq!(r.updated_at, NOW + 9);
}

#[test]
fn a_failed_file_is_processed_again_from_the_upload() {
    let mut p = processor();
    let path = "/watch/a.bin";
    p.process_file(path, NOW);
    p.upload_finished(path, 3, remote("down"), NOW);
    assert_eq!(p.records.get(path).unwrap().status, FileStatus::Failed);
    let d = p.process_file(path, NOW + 1);
    assert!(matches!(d.next, Next::Upload { attempt: 0, delay_secs: 0 }));
    assert!(d.persist.is_none());
    let r = p.records.get(path).unwrap();
    assert_eq!(r.status, FileStatus::Failed);
    assert_eq!(r.created_at, NOW);
    store(&mut p, path, "cid2", "p2", NOW + 2);
    let r = p.records.get(path).unwrap();
    assert_eq!(r.status, FileStatus::Active);
    assert_eq!(r.created_at, NOW);
    assert!(r.error.is_none());
}

#[test]
fn a_record_on_its_way_is_uploaded_again() {
    let mut p = processor();
    let path = "/watch/a.bin";
    p.process_file(path, NOW);
    p.upload_finished(path, 0, uploaded("cidA"), NOW);
    let d = p.process_file(path, NOW);
    assert!(matches!(d.next, Next::Upload { attempt: 0, delay_secs: 0 }));
    assert_eq!(p.records.get(path).unwrap().status, FileStatus::Uploading);
}

#[test]
fn an_active_file_past_its_window_is_renewed() {
    let mut p = processor();
    let path = "/watch/a.bin";
    store(&mut p, path, "cidA", "p1", NOW);
    assert_eq!(RENEWAL_BUFFER_MILLIS, ONE_HOUR_MILLIS);
    let edge = NOW + VALIDITY_WINDOW_MILLIS - ONE_HOUR_MILLIS;
    let r = p.records.get(path).unwrap();
    assert!(!p.needs_renewal(&r, edge));
    assert!(p.needs_renewal(&r, edge + 1));

    assert!(!p.check_purchase_status(path, &reported("started"), edge));
    assert!(p.check_purchase_status(path, &reported("started"), edge + 1));

    let d = p.process_file(path, edge);
    assert!(matches!(d.next, Next::Done));
    let d = p.process_file(path, edge + 1);
    assert!(matches!(d.next, Next::Upload { attempt: 0, delay_secs: 0 }));
    assert!(d.persist.is_none());
    store(&mut p, path, "cidB", "p2", edge + 1);
    let r = p.records.get(path).unwrap();
    assert_eq!(r.status, FileStatus::Active);
    assert_eq!(r.original_cid.as_deref(), Some("cidB"));
    assert_eq!(r.purchase_id.as_deref(), Some("p2"));
    assert_eq!(r.created_at, NOW);
}

#[test]
fn the_poller_replaces_a_purchase_that_has_ended() {
    let mut p = processor();
    let path = "/watch/a.bin";
    store(&mut p, path, "cidA", "p1", NOW);
    assert!(p.check_purchase_status(path, &reported("failed"), NOW));
    assert!(p.check_purchase_status(path, &reported("cancelled"), NOW));
    assert!(p.check_purchase_status(path, &reported("expired"), NOW));
    assert!(!p.check_purchase_status(path, &reported("started"), NOW));
    assert!(!p.check_purchase_status(path, &reported("pending"), NOW));
    assert!(!p.check_purchase_status(path, &reported("submitted"), NOW));
    assert!(!p.check_purchase_status(path, &reported(""), NOW));
    let late = NOW + VALIDITY_WINDOW_MILLIS;
    assert!(!p.check_purchase_status(path, &reported("Started"), late));
    assert!(!p.check_purchase_status("/watch/unknown", &reported("started"), late));
    assert!(p.check_purchase_status("/watch/unknown", &reported("failed"), NOW));
}

#[test]
fn a_round_of_the_poller_asks_about_every_active_purchase() {
    let mut p = processor();
    let round = p.monitor_purchases();
    assert!(round.purchases.is_empty());
    assert_eq!(round.sleep_secs, 300);
    assert_eq!(POLL_INTERVAL_SECS, 300);
    store(&mut p, "/watch/a", "ca", "pa", NOW);
    p.process_file("/watch/b", NOW);
    p.upload_finished("/watch/b", 0, uploaded("cb"), NOW);
    store(&mut p, "/watch/c", "cc", "pc", NOW);
    p.process_file("/watch/d", NOW);
    p.upload_finished("/watch/d", 3, remote("e"), NOW);
    let round = p.monitor_purchases();
    assert_eq!(
        round.purchases,
        vec![
            (String::from("/watch/a"), String::from("pa")),
            (String::from("/watch/c"), String::from("pc")),
        ]
    );
}

#[test]
fn a_report_that_does_not_fit_the_record_fails_the_file() {
    let mut p = processor();
    let d = p.start_finished("/watch/a", Ok(()), NOW);
    match &d.next {
        Next::Failed(ProcessError::PurchaseStart(e)) => {
            assert_eq!(e, "report does not fit the record")
        }
        other => panic!("unexpected {:?}", other),
    }
    let r = p.records.get("/watch/a").unwrap();
    assert_eq!(r.status, FileStatus::Failed);
    assert_eq!(r.error.as_deref(), Some("report does not fit the record"));
    assert!(persisted(&p, &d, "/watch/a"));

    let d = p.purchase_finished("/watch/b", String::from("c"), 0, purchase("p", "c"), NOW);
    match &d.next {
        Next::Failed(ProcessError::StorageRequest(e)) => {
            assert_eq!(e, "report does not fit the record")
        }
        other => panic!("unexpected {:?}", other),
    }
    assert_eq!(p.records.get("/watch/b").unwrap().status, FileStatus::Failed);

    p.process_file("/watch/c", NOW);
    p.upload_finished("/watch/c", 0, uploaded("cid"), NOW);
    let d = p.start_finished("/watch/c", Ok(()), NOW);
    assert!(matches!(d.next, Next::Failed(ProcessError::PurchaseStart(_))));
    assert!(all_consistent(&p));
}

#[test]
fn a_file_that_cannot_be_read_fails_at_once() {
    let mut p = processor();
    let path = "/watch/a.bin";
    p.process_file(path, NOW);
    let before = p.records.get(path).unwrap();
    let unreadable = Err(UploadError::Read(String::from("Failed to read file: denied")));
    let d = p.upload_finished(path, 0, unreadable, NOW + 1);
    assert!(d.persist.is_none());
    match &d.next {
        Next::Failed(e) => {
            assert!(matches!(e, ProcessError::Read(_)));
            assert_eq!(e.message(), "Failed to read file: denied");
        }
        other => panic!("unexpected {:?}", other),
    }
    assert!(same(&p.records.get(path).unwrap(), &before));
    // the caller notes the failure on the record
    let d = p.mark_failed(path, String::from("Failed to read file: denied"), NOW + 2);
    assert!(persisted(&p, &d, path));
    assert_eq!(p.records.get(path).unwrap().status, FileStatus::Failed);

    let mut q = processor();
    let unreadable = Err(UploadError::Read(String::from("gone")));
    let d = q.upload_finished("/watch/never_seen", 2, unreadable, NOW);
    assert!(matches!(d.next, Next::Failed(ProcessError::Read(_))));
    assert_eq!(q.records.len(), 0);
}

#[test]
fn a_failure_met_by_the_caller_is_noted_on_the_record() {
    let mut p = processor();
    let d = p.mark_failed("/watch/a", String::from("Upload failed: disk error"), NOW);
    assert!(matches!(d.next, Next::Done));
    assert!(persisted(&p, &d, "/watch/a"));
    let r = p.records.get("/watch/a").unwrap();
    assert_eq!(r.status, FileStatus::Failed);
    assert_eq!(r.error.as_deref(), Some("Upload failed: disk error"));
    assert_eq!((r.created_at, r.updated_at), (NOW, NOW));

    store(&mut p, "/watch/b", "c", "p", NOW);
    p.mark_failed("/watch/b", String::from("later"), NOW + 4);
    let r = p.records.get("/watch/b").unwrap();
    assert_eq!(r.status, FileStatus::Failed);
    assert_eq!(r.purchase_id.as_deref(), Some("p"));
    assert_eq!((r.created_at, r.updated_at), (NOW, NOW + 4));
    assert!(all_consistent(&p));
}

#[test]
fn the_first_pass_begins_every_eligible_file() {
    let mut p = processor();
    store(&mut p, "/watch/stored", "c", "p", NOW);
    p.process_file("/watch/half", NOW);
    p.upload_finished("/watch/half", 0, uploaded("c"), NOW);
    let entry = |path: &str, is_file: bool, size: u64| FileEntry {
        path: String::from(path),
        is_file,
        size,
    };
    let entries = vec![
        entry("/watch/small", true, MIN_FILE_SIZE - 1),
        entry("/watch/stored", true, MIN_FILE_SIZE),
        entry("/watch/new", true, 5 * MIN_FILE_SIZE),
        entry("/watch/dir", false, 5 * MIN_FILE_SIZE),
        entry("/watch/half", true, MAX_FILE_SIZE - 1),
        entry("/watch/large", true, MAX_FILE_SIZE),
    ];
    let batch = p.process_files(&entries, NOW + 7);
    let paths: Vec<&str> = batch.iter().map(|b| b.path.as_str()).collect();
    assert_eq!(paths, vec!["/watch/stored", "/watch/new", "/watch/half"]);
    assert!(matches!(batch[0].directive.next, Next::Done));
    assert!(matches!(batch[1].directive.next, Next::Upload { attempt: 0, delay_secs: 0 }));
    assert!(matches!(batch[2].directive.next, Next::Upload { attempt: 0, delay_secs: 0 }));
    assert!(batch.iter().all(|b| b.directive.persist.is_none()));
    assert_eq!(p.records.len(), 3);
    assert!(!p.records.contains_key("/watch/small"));
    assert!(!p.records.contains_key("/watch/large"));
    assert!(!p.records.contains_key("/watch/dir"));
    let new = p.records.get("/watch/new").unwrap();
    assert_eq!(new.status, FileStatus::New);
    assert_eq!(new.created_at, NOW + 7);
    assert_eq!(p.records.get("/watch/stored").unwrap().updated_at, NOW);
    assert!(p.process_files(&Vec::new(), NOW).is_empty());
}

#[test]
fn begin_all_takes_the_files_in_turn() {
    let mut p = processor();
    let files = vec![String::from("/watch/a"), String::from("/watch/b"), String::from("/watch/a")];
    let batch = p.begin_all(files, NOW);
    assert_eq!(batch.len(), 3);
    assert_eq!(batch[0].path, "/watch/a");
    assert_eq!(batch[1].path, "/watch/b");
    assert_eq!(batch[2].path, "/watch/a");
    assert!(batch.iter().all(|b| matches!(b.directive.next, Next::Upload { .. })));
    assert_eq!(p.records.len(), 2);
    assert_eq!(p.records.file_paths(), vec![String::from("/watch/a"), String::from("/watch/b")]);
}

#[test]
fn process_errors_name_the_step() {
    assert_eq!(ProcessError::Read(String::from("as it came")).message(), "as it came");
    assert_eq!(ProcessError::Upload(String::from("a")).message(), "Upload failed: a");
    assert_eq!(
        ProcessError::StorageRequest(String::from("b")).message(),
        "Storage request failed: b"
    );
    assert_eq!(
        ProcessError::PurchaseStart(String::from("")).message(),
        "Purchase failed to start: "
    );
}

#[test]
fn only_files_of_eligible_size_are_found_by_the_scan() {
    let p = processor();
    let entry = |path: &str, is_file: bool, size: u64| FileEntry {
        path: String::from(path),
        is_file,
        size,
    };
    let entries = vec![
        entry("/watch", false, 4096),
        entry("/watch/small", true, MIN_FILE_SIZE - 1),
        entry("/watch/least", true, MIN_FILE_SIZE),
        entry("/watch/two_mib", true, 2 * 1024 * 1024),
        entry("/watch/dir", false, 2 * 1024 * 1024),
        entry("/watch/most", true, MAX_FILE_SIZE - 1),
        entry("/watch/large", true, MAX_FILE_SIZE),
        entry("/watch/huge", true, u64::MAX),
        entry("/watch/empty", true, 0),
    ];
    assert_eq!(
        p.scan_target_folder(&entries),
        vec![
            String::from("/watch/least"),
            String::from("/watch/two_mib"),
            String::from("/watch/most"),
        ]
    );
    assert_eq!(p.scan_target_folder(&Vec::new()), Vec::<String>::new());
}

#[test]
fn eligible_sizes_run_from_one_mib_to_below_one_gib() {
    assert_eq!(MIN_FILE_SIZE, 1024 * 1024);
    assert_eq!(MAX_FILE_SIZE, 1024 * 1024 * 1024);
    assert!(!is_eligible_size(0));
    assert!(!is_eligible_size(1024 * 1024 - 1));
    assert!(is_eligible_size(1024 * 1024));
    assert!(is_eligible_size(1024 * 1024 * 1024 - 1));
    assert!(!is_eligible_size(1024 * 1024 * 1024));
    assert!(!is_eligible_size(u64::MAX));
}

#[test]
fn initialize_replaces_the_registry_by_the_stored_one() {
    let mut p = processor();
    store(&mut p, "/watch/a", "ca", "pa", NOW);
    let saved = p.records.get("/watch/a").unwrap();
    let image = p
        .storage_manager
        .save_record("/watch", "/watch/a", &saved, StoreImage::Flattened(Vec::new()))
        .unwrap();

    let mut q = processor();
    q.process_file("/watch/gone", NOW);
    assert_eq!(q.initialize(&image), Ok(()));
    assert_eq!(q.records.len(), 1);
    assert!(same(&q.records.get("/watch/a").unwrap(), &saved));
    let d = q.process_file("/watch/a", NOW + 1);
    assert!(matches!(d.next, Next::Done));

    assert_eq!(
        q.initialize(&StoreImage::Structured(Vec::new())),
        Err(StorageError::LayoutMismatch)
    );
    assert_eq!(q.records.len(), 1);
    assert_eq!(q.initialize(&StoreImage::Flattened(Vec::new())), Ok(()));
    assert_eq!(q.records.len(), 0);
}
