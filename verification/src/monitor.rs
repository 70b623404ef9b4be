//! The scheduler: what the agent does at its start, about a change in the
//! watched folder, at every tick of the reconciliation timer and at
//! shutdown.

use crate::file_processor::{
    begun_views, eligible_paths, eligible_size, lemma_eligible_paths, Begun, Directive,
    FileEntry, FileProcessor, MAX_FILE_SIZE, MIN_FILE_SIZE,
};
use crate::lifecycle::{all_consistent, begun, begun_all, lemma_begun_all_files, Outcome};
use crate::storage::FileRecordView;
use crate::text::texts_view;
use vstd::prelude::*;

verus! {

/// The number of file events that may wait to be handled; an event that
/// finds the queue full is dropped.
pub const EVENT_QUEUE_CAPACITY: usize = 100;

/// The seconds between two reconciliations of the watched folder with the
/// registry.
pub const RECONCILE_INTERVAL_SECS: u64 = 30;

/// The seconds a file is given to settle before its size is read again.
pub const SETTLE_DELAY_SECS: u64 = 1;

/// The kind of a change in the watched folder.
#[derive(Debug, Clone, Copy, PartialEq, Eq, Structural)]
pub enum EventKind {
    Create,
    Modify,
    Remove,
    Other,
}

/// What the caller found at a path: whether it is a regular file, and its
/// size where that could be read.
#[derive(Debug, Clone, Copy, PartialEq, Eq, Structural)]
pub struct PathProbe {
    pub is_file: bool,
    pub size: Option<u64>,
}

/// Why a path is passed over.
#[derive(Debug, Clone, Copy, PartialEq, Eq, Structural)]
pub enum Reason {
    /// The file was removed; removals are only logged.
    Removed,
    /// The change is neither a creation nor a modification.
    OtherChange,
    /// The path is no regular file.
    NotAFile,
    /// The size of the file could not be read.
    Unreadable,
    /// The file is smaller than the smallest file that is stored.
    TooSmall,
    /// The file is too large to be stored.
    TooLarge,
    /// The file was gone after the settle delay.
    Vanished,
    /// The size of the file changed during the settle delay.
    StillWritten,
}

/// What is to be done about a path that a file event names.
#[derive(Debug, Clone, Copy, PartialEq, Eq, Structural)]
pub enum Sighting {
    /// Nothing.
    Ignore(Reason),
    /// Wait `delay_secs` seconds, read the size again and report with
    /// [`Monitor::settled`].
    Settle { size: u64, delay_secs: u64 },
}

/// Why a file of this size is not stored, if it is not.
pub open spec fn size_objection(size: u64) -> Option<Reason> {
    if size < MIN_FILE_SIZE {
        Some(Reason::TooSmall)
    } else if size >= MAX_FILE_SIZE {
        Some(Reason::TooLarge)
    } else {
        None
    }
}

/// What is to be done about a path named by an event of the given kind.
/// Only a created or modified regular file whose size can be read and is
/// eligible is given time to settle.
pub open spec fn sighted(kind: EventKind, probe: PathProbe) -> Sighting {
    match kind {
        EventKind::Remove => Sighting::Ignore(Reason::Removed),
        EventKind::Other => Sighting::Ignore(Reason::OtherChange),
        EventKind::Create | EventKind::Modify => if !probe.is_file {
            Sighting::Ignore(Reason::NotAFile)
        } else {
            match probe.size {
                None => Sighting::Ignore(Reason::Unreadable),
                Some(size) => match size_objection(size) {
                    Some(reason) => Sighting::Ignore(reason),
                    None => Sighting::Settle { size, delay_secs: SETTLE_DELAY_SECS },
                },
            }
        },
    }
}

/// Why a file is passed over that had the size `size` before the settle
/// delay and has the size `after` now (`None` where it is gone), if it
/// is. It is processed only if its size is unchanged and eligible.
pub open spec fn settle_objection(size: u64, after: Option<u64>) -> Option<Reason> {
    match after {
        None => Some(Reason::Vanished),
        Some(now) => if now != size {
            Some(Reason::StillWritten)
        } else {
            size_objection(size)
        },
    }
}

/// The paths that have no record, in their order.
pub open spec fn unfiled(paths: Seq<Seq<char>>, records: Map<Seq<char>, FileRecordView>) -> Seq<
    Seq<char>,
>
    decreases paths.len(),
{
    if paths.len() == 0 {
        Seq::empty()
    } else {
        let before = unfiled(paths.drop_last(), records);
        if records.dom().contains(paths.last()) {
            before
        } else {
            before.push(paths.last())
        }
    }
}

/// Where the scheduler stands.
#[derive(Debug, Clone, Copy, PartialEq, Eq, Structural)]
pub enum Phase {
    /// Not started.
    Idle,
    /// The registry is being loaded from the store.
    Loading,
    /// Every eligible file of the target folder is being processed,
    /// one after another.
    Scanning,
    /// The watcher, the timer and the poller run.
    Watching,
    /// The scheduler has stopped.
    Stopped,
}

/// What the scheduler is told.
#[derive(Debug, Clone, Copy, PartialEq, Eq, Structural)]
pub enum Signal {
    /// The agent starts.
    Begin,
    /// The registry was loaded from the store.
    Loaded,
    /// The files found at the start were processed.
    Scanned,
    /// The watcher reports a change.
    FileEvent,
    /// The reconciliation timer ticks.
    Tick,
    /// The agent is asked to stop.
    Interrupt,
}

/// What the caller is to do.
#[derive(Debug, Clone, Copy, PartialEq, Eq, Structural)]
pub enum Duty {
    /// Nothing.
    Nothing,
    /// Read the store and initialize the orchestrator with it.
    LoadRecords,
    /// Scan the target folder and process every eligible file in turn.
    ProcessAll,
    /// Start the watcher, the reconciliation timer and the poller.
    Watch,
    /// Handle the reported change with [`Monitor::handle_file_event`].
    HandleEvent,
    /// Reconcile with [`Monitor::periodic_check`].
    Reconcile,
    /// Cancel the poller and leave.
    Shutdown,
}

/// The phase that follows and the duty that arises when the scheduler is
/// told something. The start runs through loading and the first scan
/// before it watches; changes and ticks count only while it watches; an
/// interrupt stops it in whatever phase it is; once stopped it stays
/// stopped. A signal that does not belong to the phase changes nothing.
pub open spec fn scheduled(phase: Phase, signal: Signal) -> (Phase, Duty) {
    match (phase, signal) {
        (Phase::Stopped, _) => (Phase::Stopped, Duty::Nothing),
        (_, Signal::Interrupt) => (Phase::Stopped, Duty::Shutdown),
        (Phase::Idle, Signal::Begin) => (Phase::Loading, Duty::LoadRecords),
        (Phase::Loading, Signal::Loaded) => (Phase::Scanning, Duty::ProcessAll),
        (Phase::Scanning, Signal::Scanned) => (Phase::Watching, Duty::Watch),
        (Phase::Watching, Signal::FileEvent) => (Phase::Watching, Duty::HandleEvent),
        (Phase::Watching, Signal::Tick) => (Phase::Watching, Duty::Reconcile),
        _ => (phase, Duty::Nothing),
    }
}

/// The scheduler, around the orchestrator it drives.
#[derive(Debug)]
pub struct Monitor {
    pub file_processor: FileProcessor,
    pub phase: Phase,
}

impl Monitor {
    /// A scheduler that has not started.
    pub fn new(file_processor: FileProcessor) -> (m: Monitor)
        ensures
            m.file_processor == file_processor,
            m.phase == Phase::Idle,
    {
        Monitor { file_processor, phase: Phase::Idle }
    }

    /// Takes a signal, as [`scheduled`] says: moves to the phase that
    /// follows and answers with the duty that arises.
    pub fn run(&mut self, signal: Signal) -> (duty: Duty)
        ensures
            (final(self).phase, duty) == scheduled(old(self).phase, signal),
            final(self).file_processor == old(self).file_processor,
            duty == Duty::HandleEvent || duty == Duty::Reconcile ==> old(self).phase
                == Phase::Watching,
    {
        let (phase, duty) = match (self.phase, signal) {
            (Phase::Stopped, _) => (Phase::Stopped, Duty::Nothing),
            (_, Signal::Interrupt) => (Phase::Stopped, Duty::Shutdown),
            (Phase::Idle, Signal::Begin) => (Phase::Loading, Duty::LoadRecords),
            (Phase::Loading, Signal::Loaded) => (Phase::Scanning, Duty::ProcessAll),
            (Phase::Scanning, Signal::Scanned) => (Phase::Watching, Duty::Watch),
            (Phase::Watching, Signal::FileEvent) => (Phase::Watching, Duty::HandleEvent),
            (Phase::Watching, Signal::Tick) => (Phase::Watching, Duty::Reconcile),
            _ => (self.phase, Duty::Nothing),
        };
        self.phase = phase;
        duty
    }

    /// Decides about a path named by a file event, as [`sighted`] says. A
    /// file whose size is not eligible is never given time to settle.
    pub fn handle_file_event(&self, kind: EventKind, probe: PathProbe) -> (sighting: Sighting)
        ensures
            sighting == sighted(kind, probe),
            sighting matches Sighting::Settle { size, .. } ==> eligible_size(size) && probe.size
                == Some(size),
    {
        match kind {
            EventKind::Remove => Sighting::Ignore(Reason::Removed),
            EventKind::Other => Sighting::Ignore(Reason::OtherChange),
            EventKind::Create | EventKind::Modify => {
                if !probe.is_file {
                    return Sighting::Ignore(Reason::NotAFile);
                }
                match probe.size {
                    None => Sighting::Ignore(Reason::Unreadable),
                    Some(size) => {
                        if size < MIN_FILE_SIZE {
                            Sighting::Ignore(Reason::TooSmall)
                        } else if size >= MAX_FILE_SIZE {
                            Sighting::Ignore(Reason::TooLarge)
                        } else {
                            Sighting::Settle { size, delay_secs: SETTLE_DELAY_SECS }
                        }
                    },
                }
            },
        }
    }

    /// Takes the size of a file after the settle delay (`None` where the
    /// file is gone). A file whose size is unchanged and eligible is
    /// handed to the orchestrator, which begins to process it; any other
    /// file is passed over, as [`settle_objection`] says, and the registry
    /// stays as it is.
    pub fn settled(&mut self, file_path: &str, size: u64, after: Option<u64>, now: i64) -> (r:
        Result<Directive, Reason>)
        ensures
            final(self).phase == old(self).phase,
            final(self).file_processor.same_setup(old(self).file_processor),
            match settle_objection(size, after) {
                Some(reason) => r is Err && r->Err_0 == reason
                    && final(self).file_processor.records@ == old(self).file_processor.records@,
                None => r is Ok && (Outcome {
                    records: final(self).file_processor.records@,
                    directive: r->Ok_0@,
                }) == begun(old(self).file_processor.records@, file_path@, now as int),
            },
            !eligible_size(size) ==> final(self).file_processor.records@
                == old(self).file_processor.records@,
            all_consistent(old(self).file_processor.records@) ==> all_consistent(
                final(self).file_processor.records@,
            ),
    {
        match after {
            None => Err(Reason::Vanished),
            Some(now_size) => {
                if now_size != size {
                    Err(Reason::StillWritten)
                } else if size < MIN_FILE_SIZE {
                    Err(Reason::TooSmall)
                } else if size >= MAX_FILE_SIZE {
                    Err(Reason::TooLarge)
                } else {
                    Ok(self.file_processor.process_file(file_path, now))
                }
            },
        }
    }

    /// Reconciles the watched folder with the registry at a tick of the
    /// timer: begins to process every regular file of eligible size found
    /// below the target folder that has no record, in the order in which
    /// the files were found. No other file gets a record.
    pub fn periodic_check(&mut self, entries: &Vec<FileEntry>, now: i64) -> (batch: Vec<Begun>)
        ensures
            final(self).phase == old(self).phase,
            final(self).file_processor.same_setup(old(self).file_processor),
            (final(self).file_processor.records@, begun_views(batch@)) == begun_all(
                old(self).file_processor.records@,
                unfiled(eligible_paths(entries@), old(self).file_processor.records@),
                now as int,
            ),
            all_consistent(old(self).file_processor.records@) ==> all_consistent(
                final(self).file_processor.records@,
            ),
            forall|path: Seq<char>| #[trigger]
                final(self).file_processor.records@.dom().contains(path)
                    ==> old(self).file_processor.records@.dom().contains(path) || exists|i: int|
                    0 <= i < entries@.len() && (#[trigger] entries@[i]).path@ == path
                        && entries@[i].is_file && eligible_size(entries@[i].size),
    {
        let found = self.file_processor.scan_target_folder(entries);
        let ghost paths = eligible_paths(entries@);
        let ghost records = self.file_processor.records@;
        let mut files: Vec<String> = Vec::new();
        let mut i: usize = 0;
        assert(paths.take(0) =~= Seq::<Seq<char>>::empty());
        assert(texts_view(files@) =~= unfiled(paths.take(0), records));
        while i < found.len()
            invariant
                i <= found@.len(),
                texts_view(found@) == paths,
                records == self.file_processor.records@,
                texts_view(files@) == unfiled(paths.take(i as int), records),
                forall|j: int|
                    0 <= j < files@.len() ==> exists|k: int|
                        0 <= k < found@.len() && (#[trigger] found@[k])@ == (
                        #[trigger] files@[j])@,
            decreases found@.len() - i,
        {
            let ghost before = files@;
            proof {
                assert(paths.take(i as int + 1).drop_last() =~= paths.take(i as int));
                assert(paths.take(i as int + 1).last() == paths[i as int]);
                assert(paths[i as int] == found@[i as int]@);
            }
            if !self.file_processor.records.contains_key(found[i].as_str()) {
                files.push(found[i].clone());
                proof {
                    assert(texts_view(files@) =~= texts_view(before).push(found@[i as int]@));
                    assert forall|j: int| 0 <= j < files@.len() implies exists|k: int|
                        0 <= k < found@.len() && (#[trigger] found@[k])@ == (
                        #[trigger] files@[j])@ by {
                        if j < before.len() {
                            assert(files@[j] == before[j]);
                            let k = choose|k: int|
                                0 <= k < found@.len() && (#[trigger] found@[k])@ == (
                                #[trigger] before[j])@;
                            assert(found@[k]@ == files@[j]@);
                        } else {
                            assert(found@[i as int]@ == files@[j]@);
                        }
                    }
                }
            }
            i = i + 1;
        }
        assert(paths.take(i as int) =~= paths);
        let ghost listed = files@;
        let ghost chosen = texts_view(files@);
        let batch = self.file_processor.begin_all(files, now);
        proof {
            lemma_begun_all_files(records, chosen, now as int);
            assert forall|path: Seq<char>| #[trigger]
                self.file_processor.records@.dom().contains(path) implies records.dom().contains(
                path,
            ) || exists|i: int|
                0 <= i < entries@.len() && (#[trigger] entries@[i]).path@ == path
                    && entries@[i].is_file && eligible_size(entries@[i].size) by {
                assert(begun_all(records, chosen, now as int).0.dom().contains(path));
                if !records.dom().contains(path) {
                    let j = choose|j: int| 0 <= j < chosen.len() && chosen[j] == path;
                    assert(listed[j]@ == path);
                    let k = choose|k: int|
                        0 <= k < found@.len() && (#[trigger] found@[k])@ == (
                        #[trigger] listed[j])@;
                    assert(paths[k] == found@[k]@);
                    lemma_eligible_paths(entries@, k);
                }
            }
        }
        batch
    }
}

/// A file whose size is not eligible never reaches the orchestrator: it
/// is neither given time to settle nor processed after the settle delay,
/// whatever the event and whatever was found at its path.
pub proof fn lemma_only_eligible_files_are_processed(
    kind: EventKind,
    probe: PathProbe,
    size: u64,
    after: Option<u64>,
)
    requires
        !eligible_size(size),
    ensures
        settle_objection(size, after) is Some,
        probe.size == Some(size) ==> sighted(kind, probe) is Ignore,
        sighted(kind, probe) matches Sighting::Settle { size: settling, .. } ==> settling != size,
{
}

} // verus!
