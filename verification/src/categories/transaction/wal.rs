//! Write-Ahead Log Block
//!
//! An append-only log of records, each with a log sequence number (LSN).
//! LSNs start at 1 and grow by one per record. The log is fsynced every
//! `fsync_interval` appended entries and checkpointed every
//! `checkpoint_interval` entries; a checkpoint is itself a log record.
use serde_json::Value as JsonValue;
use vstd::prelude::*;
use vstd::string::*;

use crate::common::block::{Alternative, BlockCategory, BlockDocumentation, BlockError, BlockMetadata, Complexity, Reference, ReferenceType};
use crate::common::json::{json_text_bytes, json_text_len};
use crate::common::metrics::{AggregationType, MetricDefinition, MetricType};
use crate::common::port::{Port, PortDirection};

verus! {

/// Log sequence number.
pub type LSN = u64;

/// Bytes of header (LSN, type, size, checksum) written with every record.
pub const HEADER_SIZE: usize = 32;

/// The kind of change a log record describes.
#[derive(Debug, Clone, Copy, PartialEq, Eq, Structural)]
pub enum LogRecordType {
    Insert,
    Update,
    Delete,
    Commit,
    Checkpoint,
}

/// One entry of the log.
#[derive(Debug, Clone, Copy)]
pub struct LogRecord {
    pub lsn: LSN,
    pub record_type: LogRecordType,
    pub size_bytes: usize,
}

/// An append-only write-ahead log with periodic fsync and checkpoints.
pub struct WALBlock {
    metadata: BlockMetadata,
    input_ports: Vec<Port>,
    output_ports: Vec<Port>,
    metric_defs: Vec<MetricDefinition>,
    /// Fsync every N log entries
    fsync_interval: usize,
    /// Checkpoint every N log entries
    checkpoint_interval: usize,
    log: Vec<LogRecord>,
    next_lsn: LSN,
    last_checkpoint_lsn: LSN,
    total_bytes: usize,
    fsync_count: usize,
    checkpoint_count: usize,
    entries_since_fsync: usize,
    entries_since_checkpoint: usize,
}

/// A log record as written: `data_size` bytes plus the header.
pub open spec fn record(lsn: int, record_type: LogRecordType, data_size: int) -> LogRecord {
    LogRecord { lsn: lsn as u64, record_type, size_bytes: (HEADER_SIZE + data_size) as usize }
}

/// The most bytes the first `n` records of a batch add: a record's header
/// and JSON text, and a checkpoint's header.
pub open spec fn batch_bytes(records: Seq<JsonValue>, n: int) -> nat
    decreases n,
{
    if n <= 0 {
        0
    } else {
        (batch_bytes(records, n - 1) + 2 * HEADER_SIZE + json_text_bytes(records[n - 1]).len()) as nat
    }
}

proof fn lemma_batch_bytes_prefix(records: Seq<JsonValue>, a: int, b: int)
    requires
        0 <= a <= b,
    ensures
        batch_bytes(records, a) <= batch_bytes(records, b),
    decreases b - a,
{
    if a < b {
        lemma_batch_bytes_prefix(records, a, b - 1);
    }
}

impl WALBlock {
    /// The log, oldest record first.
    pub closed spec fn log(&self) -> Seq<LogRecord> {
        self.log@
    }

    pub closed spec fn spec_next_lsn(&self) -> u64 {
        self.next_lsn
    }

    pub closed spec fn spec_fsync_interval(&self) -> usize {
        self.fsync_interval
    }

    pub closed spec fn spec_checkpoint_interval(&self) -> usize {
        self.checkpoint_interval
    }

    pub closed spec fn spec_last_checkpoint_lsn(&self) -> u64 {
        self.last_checkpoint_lsn
    }

    pub closed spec fn spec_total_bytes(&self) -> usize {
        self.total_bytes
    }

    pub closed spec fn spec_fsync_count(&self) -> usize {
        self.fsync_count
    }

    pub closed spec fn spec_checkpoint_count(&self) -> usize {
        self.checkpoint_count
    }

    pub closed spec fn spec_entries_since_fsync(&self) -> usize {
        self.entries_since_fsync
    }

    pub closed spec fn spec_entries_since_checkpoint(&self) -> usize {
        self.entries_since_checkpoint
    }

    /// The i-th record carries LSN i + 1, and the next LSN follows the last.
    pub closed spec fn wf(&self) -> bool {
        &&& self.next_lsn as int == self.log@.len() + 1
        &&& forall|i: int| 0 <= i < self.log@.len() ==> (#[trigger] self.log@[i]).lsn == i + 1
        &&& self.entries_since_fsync <= self.log@.len()
        &&& self.entries_since_checkpoint <= self.log@.len()
        &&& self.last_checkpoint_lsn < self.next_lsn
    }

    /// Room for one more append of `data_size` bytes (and the checkpoint it
    /// may trigger) in every counter.
    pub open spec fn has_room(&self, data_size: usize) -> bool {
        &&& self.log().len() + 2 < u64::MAX
        &&& self.log().len() + 2 < usize::MAX
        &&& self.total_bytes() + 2 * HEADER_SIZE + data_size <= usize::MAX
        &&& self.fsync_count() < usize::MAX
        &&& self.checkpoint_count() < usize::MAX
    }

    /// An append fsyncs when the entries since the last fsync reach the interval.
    pub open spec fn append_fsyncs(&self) -> bool {
        self.entries_since_fsync() + 1 >= self.fsync_interval()
    }

    /// An append checkpoints when the entries since the last checkpoint reach
    /// the interval.
    pub open spec fn append_checkpoints(&self) -> bool {
        self.entries_since_checkpoint() + 1 >= self.checkpoint_interval()
    }

    #[verifier::when_used_as_spec(spec_fsync_interval)]
    pub fn fsync_interval(&self) -> (r: usize)
        ensures
            r == self.spec_fsync_interval(),
    {
        self.fsync_interval
    }

    #[verifier::when_used_as_spec(spec_checkpoint_interval)]
    pub fn checkpoint_interval(&self) -> (r: usize)
        ensures
            r == self.spec_checkpoint_interval(),
    {
        self.checkpoint_interval
    }

    /// The LSN of the most recent checkpoint record, 0 before the first.
    #[verifier::when_used_as_spec(spec_last_checkpoint_lsn)]
    pub fn last_checkpoint_lsn(&self) -> (r: u64)
        ensures
            r == self.spec_last_checkpoint_lsn(),
    {
        self.last_checkpoint_lsn
    }

    /// Bytes written to the log.
    #[verifier::when_used_as_spec(spec_total_bytes)]
    pub fn total_bytes(&self) -> (r: usize)
        ensures
            r == self.spec_total_bytes(),
    {
        self.total_bytes
    }

    #[verifier::when_used_as_spec(spec_fsync_count)]
    pub fn fsync_count(&self) -> (r: usize)
        ensures
            r == self.spec_fsync_count(),
    {
        self.fsync_count
    }

    #[verifier::when_used_as_spec(spec_checkpoint_count)]
    pub fn checkpoint_count(&self) -> (r: usize)
        ensures
            r == self.spec_checkpoint_count(),
    {
        self.checkpoint_count
    }

    #[verifier::when_used_as_spec(spec_entries_since_fsync)]
    pub fn entries_since_fsync(&self) -> (r: usize)
        ensures
            r == self.spec_entries_since_fsync(),
    {
        self.entries_since_fsync
    }

    #[verifier::when_used_as_spec(spec_entries_since_checkpoint)]
    pub fn entries_since_checkpoint(&self) -> (r: usize)
        ensures
            r == self.spec_entries_since_checkpoint(),
    {
        self.entries_since_checkpoint
    }

    /// A log that fsyncs every entry and checkpoints every 100 entries.
    pub fn new() -> (wal: Self)
        ensures
            wal.wf(),
            wal.log() == Seq::<LogRecord>::empty(),
            wal.fsync_interval() == 1,
            wal.checkpoint_interval() == 100,
            wal.last_checkpoint_lsn() == 0,
            wal.total_bytes() == 0,
            wal.fsync_count() == 0,
            wal.checkpoint_count() == 0,
            wal.entries_since_fsync() == 0,
            wal.entries_since_checkpoint() == 0,
            wal.spec_metadata().id@ == "wal"@,
            wal.spec_metadata().category == BlockCategory::Transaction,
    {
        Self::with_intervals(1, 100)
    }

    /// An empty log with the given fsync and checkpoint intervals.
    pub fn with_intervals(fsync_interval: usize, checkpoint_interval: usize) -> (wal: Self)
        ensures
            wal.wf(),
            wal.log() == Seq::<LogRecord>::empty(),
            wal.fsync_interval() == fsync_interval,
            wal.checkpoint_interval() == checkpoint_interval,
            wal.last_checkpoint_lsn() == 0,
            wal.total_bytes() == 0,
            wal.fsync_count() == 0,
            wal.checkpoint_count() == 0,
            wal.entries_since_fsync() == 0,
            wal.entries_since_checkpoint() == 0,
            wal.spec_metadata().id@ == "wal"@,
            wal.spec_metadata().category == BlockCategory::Transaction,
    {
        Self {
            metadata: Self::build_metadata(),
            input_ports: Self::build_inputs(),
            output_ports: Self::build_outputs(),
            metric_defs: Self::build_metrics(),
            fsync_interval,
            checkpoint_interval,
            log: Vec::new(),
            next_lsn: 1,
            last_checkpoint_lsn: 0,
            total_bytes: 0,
            fsync_count: 0,
            checkpoint_count: 0,
            entries_since_fsync: 0,
            entries_since_checkpoint: 0,
        }
    }

    /// Sets the intervals given: an fsync interval below 1 or a checkpoint
    /// interval below 10 is refused. Each value is set before it is
    /// checked, the fsync interval first: a refused value stays set, and a
    /// refused fsync interval leaves the checkpoint interval as it was.
    pub fn configure(&mut self, fsync_interval: Option<usize>, checkpoint_interval: Option<usize>) -> (r: Result<(), BlockError>)
        requires
            old(self).wf(),
        ensures
            final(self).wf(),
            final(self).log() == old(self).log(),
            final(self).last_checkpoint_lsn() == old(self).last_checkpoint_lsn(),
            final(self).total_bytes() == old(self).total_bytes(),
            final(self).fsync_count() == old(self).fsync_count(),
            final(self).checkpoint_count() == old(self).checkpoint_count(),
            final(self).entries_since_fsync() == old(self).entries_since_fsync(),
            final(self).entries_since_checkpoint() == old(self).entries_since_checkpoint(),
            r is Err <==> fsync_interval == Some(0usize) || (fsync_interval != Some(0usize) && (
            checkpoint_interval matches Some(c) && c < 10)),
            final(self).fsync_interval() == match fsync_interval {
                Some(f) => f,
                None => old(self).fsync_interval(),
            },
            final(self).checkpoint_interval() == match checkpoint_interval {
                Some(c) if fsync_interval != Some(0usize) => c,
                _ => old(self).checkpoint_interval(),
            },
    {
        if let Some(f) = fsync_interval {
            self.fsync_interval = f;
            if f < 1 {
                return Err(BlockError::InvalidParameter(String::from_str("fsync_interval must be at least 1")));
            }
        }
        if let Some(c) = checkpoint_interval {
            self.checkpoint_interval = c;
            if c < 10 {
                return Err(BlockError::InvalidParameter(String::from_str("checkpoint_interval must be at least 10")));
            }
        }
        Ok(())
    }

    /// Appends a record of `data_size` bytes and returns its LSN. The append
    /// may trigger an fsync and then a checkpoint, which appends a checkpoint
    /// record of its own.
    pub fn append(&mut self, record_type: LogRecordType, data_size: usize) -> (lsn: LSN)
        requires
            old(self).wf(),
            old(self).has_room(data_size),
        ensures
            final(self).wf(),
            lsn == old(self).log().len() + 1,
            final(self).log() == if old(self).append_checkpoints() {
                old(self).log().push(record(lsn as int, record_type, data_size as int)).push(
                    record(lsn + 1, LogRecordType::Checkpoint, 0),
                )
            } else {
                old(self).log().push(record(lsn as int, record_type, data_size as int))
            },
            final(self).total_bytes() == old(self).total_bytes() + HEADER_SIZE + data_size + (
            if old(self).append_checkpoints() {
                HEADER_SIZE
            } else {
                0
            }),
            final(self).fsync_count() == old(self).fsync_count() + (if old(self).append_fsyncs() {
                1int
            } else {
                0int
            }),
            final(self).entries_since_fsync() == if old(self).append_fsyncs() {
                0
            } else {
                old(self).entries_since_fsync() + 1
            },
            final(self).checkpoint_count() == old(self).checkpoint_count() + (
            if old(self).append_checkpoints() {
                1int
            } else {
                0int
            }),
            final(self).entries_since_checkpoint() == if old(self).append_checkpoints() {
                0
            } else {
                old(self).entries_since_checkpoint() + 1
            },
            final(self).last_checkpoint_lsn() == if old(self).append_checkpoints() {
                lsn + 1
            } else {
                old(self).last_checkpoint_lsn() as int
            },
            final(self).fsync_interval() == old(self).fsync_interval(),
            final(self).checkpoint_interval() == old(self).checkpoint_interval(),
    {
        let lsn = self.append_raw(record_type, data_size);
        self.entries_since_fsync = self.entries_since_fsync + 1;
        self.entries_since_checkpoint = self.entries_since_checkpoint + 1;
        if self.entries_since_fsync >= self.fsync_interval {
            self.fsync();
        }
        if self.entries_since_checkpoint >= self.checkpoint_interval {
            self.checkpoint();
        }
        lsn
    }

    /// Logs a batch: each record as an insert of its JSON text's size,
    /// then a commit, then a sync where one is pending. The result holds
    /// each record's LSN, in order.
    pub fn log_records(&mut self, records: &Vec<JsonValue>) -> (lsns: Vec<LSN>)
        requires
            old(self).wf(),
            old(self).log().len() + 2 * records@.len() + 4 < u64::MAX,
            old(self).log().len() + 2 * records@.len() + 4 < usize::MAX,
            old(self).total_bytes() + batch_bytes(records@, records@.len() as int) + 2 * HEADER_SIZE <= usize::MAX,
            old(self).fsync_count() + records@.len() + 2 <= usize::MAX,
            old(self).checkpoint_count() + records@.len() + 2 <= usize::MAX,
        ensures
            final(self).wf(),
            lsns@.len() == records@.len(),
            final(self).log().subrange(0, old(self).log().len() as int) == old(self).log(),
            forall|i: int| 0 <= i < lsns@.len() ==> {
                &&& old(self).log().len() < #[trigger] lsns@[i] <= final(self).log().len()
                &&& final(self).log()[lsns@[i] - 1] == record(lsns@[i] as int, LogRecordType::Insert, json_text_bytes(records@[i]).len() as int)
            },
            forall|i: int, j: int| 0 <= i < j < lsns@.len() ==> lsns@[i] < lsns@[j],
            exists|c: int| 0 <= c < final(self).log().len() && (forall|i: int| 0 <= i < lsns@.len() ==> lsns@[i] < final(self).log()[c].lsn) && #[trigger] final(self).log()[c].record_type == LogRecordType::Commit,
            final(self).entries_since_fsync() == 0,
            final(self).fsync_interval() == old(self).fsync_interval(),
            final(self).checkpoint_interval() == old(self).checkpoint_interval(),
    {
        let ghost n0 = self.log().len();
        let mut lsns: Vec<LSN> = Vec::new();
        let mut i: usize = 0;
        while i < records.len()
            invariant
                self.wf(),
                0 <= i <= records@.len(),
                lsns@.len() == i,
                n0 == old(self).log().len(),
                n0 <= self.log().len() <= n0 + 2 * i,
                self.log().subrange(0, n0 as int) == old(self).log(),
                self.total_bytes() <= old(self).total_bytes() + batch_bytes(records@, i as int),
                self.fsync_count() <= old(self).fsync_count() + i,
                self.checkpoint_count() <= old(self).checkpoint_count() + i,
                old(self).log().len() + 2 * records@.len() + 4 < u64::MAX,
                old(self).log().len() + 2 * records@.len() + 4 < usize::MAX,
                old(self).total_bytes() + batch_bytes(records@, records@.len() as int) + 2 * HEADER_SIZE <= usize::MAX,
                old(self).fsync_count() + records@.len() + 2 <= usize::MAX,
                old(self).checkpoint_count() + records@.len() + 2 <= usize::MAX,
                forall|t: int| 0 <= t < i ==> {
                    &&& n0 < #[trigger] lsns@[t] <= self.log().len()
                    &&& self.log()[lsns@[t] - 1] == record(lsns@[t] as int, LogRecordType::Insert, json_text_bytes(records@[t]).len() as int)
                },
                forall|a: int, b: int| 0 <= a < b < i ==> lsns@[a] < lsns@[b],
                self.fsync_interval() == old(self).fsync_interval(),
                self.checkpoint_interval() == old(self).checkpoint_interval(),
            decreases records@.len() - i,
        {
            let size = Self::record_data_size(&records[i]);
            proof {
                lemma_batch_bytes_prefix(records@, i as int + 1, records@.len() as int);
            }
            let ghost before = self.log();
            let lsn = self.append(LogRecordType::Insert, size);
            proof {
                assert(self.log()[lsn - 1] == record(lsn as int, LogRecordType::Insert, size as int));
                assert forall|x: int| 0 <= x < before.len() implies #[trigger] self.log()[x] == before[x] by {}
                assert(self.log().subrange(0, n0 as int) =~= before.subrange(0, n0 as int));
            }
            lsns.push(lsn);
            i = i + 1;
        }
        proof {
            lemma_batch_bytes_prefix(records@, records@.len() as int, records@.len() as int);
        }
        let ghost before = self.log();
        let c = self.append(LogRecordType::Commit, 0);
        proof {
            assert(self.log()[c - 1].record_type == LogRecordType::Commit);
            assert(self.log()[c - 1].lsn == c);
            assert forall|x: int| 0 <= x < before.len() implies #[trigger] self.log()[x] == before[x] by {}
            assert(self.log().subrange(0, n0 as int) =~= before.subrange(0, n0 as int));
        }
        self.sync_pending();
        proof {
            let ci = c - 1;
            assert(0 <= ci < self.log().len());
            assert(forall|t: int| 0 <= t < lsns@.len() ==> lsns@[t] < self.log()[ci].lsn);
            assert(self.log()[ci].record_type == LogRecordType::Commit);
        }
        lsns
    }

    /// The data size a record is logged with: the length in bytes of its
    /// JSON text (64 were it ever unwritable, which a JSON value is not).
    pub fn record_data_size(record: &JsonValue) -> (n: usize)
        ensures
            n == json_text_bytes(*record).len(),
            n <= isize::MAX,
    {
        match json_text_len(record) {
            Some(n) => n,
            None => 64,
        }
    }

    /// Syncs the log where entries were appended since the last sync, as
    /// a batch ends.
    pub fn sync_pending(&mut self)
        requires
            old(self).wf(),
            old(self).fsync_count() < usize::MAX,
        ensures
            final(self).wf(),
            final(self).log() == old(self).log(),
            final(self).fsync_count() == old(self).fsync_count() + if old(self).entries_since_fsync() > 0 {
                1int
            } else {
                0int
            },
            final(self).entries_since_fsync() == 0,
            final(self).last_checkpoint_lsn() == old(self).last_checkpoint_lsn(),
            final(self).total_bytes() == old(self).total_bytes(),
            final(self).checkpoint_count() == old(self).checkpoint_count(),
            final(self).entries_since_checkpoint() == old(self).entries_since_checkpoint(),
            final(self).fsync_interval() == old(self).fsync_interval(),
            final(self).checkpoint_interval() == old(self).checkpoint_interval(),
    {
        if self.entries_since_fsync > 0 {
            self.fsync();
        }
    }

    fn fsync(&mut self)
        requires
            old(self).fsync_count < usize::MAX,
        ensures
            final(self).fsync_count == old(self).fsync_count + 1,
            final(self).entries_since_fsync == 0,
            final(self).log == old(self).log,
            final(self).next_lsn == old(self).next_lsn,
            final(self).last_checkpoint_lsn == old(self).last_checkpoint_lsn,
            final(self).total_bytes == old(self).total_bytes,
            final(self).checkpoint_count == old(self).checkpoint_count,
            final(self).entries_since_checkpoint == old(self).entries_since_checkpoint,
            final(self).fsync_interval == old(self).fsync_interval,
            final(self).checkpoint_interval == old(self).checkpoint_interval,
    {
        self.fsync_count = self.fsync_count + 1;
        self.entries_since_fsync = 0;
    }

    /// Writes a checkpoint record and remembers its LSN.
    pub fn checkpoint(&mut self)
        requires
            old(self).wf(),
            old(self).log().len() + 1 < u64::MAX,
            old(self).log().len() + 1 < usize::MAX,
            old(self).total_bytes() + HEADER_SIZE <= usize::MAX,
            old(self).checkpoint_count() < usize::MAX,
        ensures
            final(self).wf(),
            final(self).log() == old(self).log().push(
                record(old(self).log().len() + 1int, LogRecordType::Checkpoint, 0),
            ),
            final(self).last_checkpoint_lsn() == old(self).log().len() + 1,
            final(self).checkpoint_count() == old(self).checkpoint_count() + 1,
            final(self).entries_since_checkpoint() == 0,
            final(self).total_bytes() == old(self).total_bytes() + HEADER_SIZE,
            final(self).fsync_count() == old(self).fsync_count(),
            final(self).entries_since_fsync() == old(self).entries_since_fsync(),
            final(self).fsync_interval() == old(self).fsync_interval(),
            final(self).checkpoint_interval() == old(self).checkpoint_interval(),
    {
        let lsn = self.append_raw(LogRecordType::Checkpoint, 0);
        self.last_checkpoint_lsn = lsn;
        self.checkpoint_count = self.checkpoint_count + 1;
        self.entries_since_checkpoint = 0;
    }

    fn append_raw(&mut self, record_type: LogRecordType, data_size: usize) -> (lsn: LSN)
        requires
            old(self).wf(),
            old(self).log@.len() + 1 < u64::MAX,
            old(self).log@.len() + 1 < usize::MAX,
            old(self).total_bytes + HEADER_SIZE + data_size <= usize::MAX,
        ensures
            final(self).wf(),
            lsn == old(self).log@.len() + 1,
            final(self).log@ == old(self).log@.push(record(lsn as int, record_type, data_size as int)),
            final(self).total_bytes == old(self).total_bytes + HEADER_SIZE + data_size,
            final(self).last_checkpoint_lsn == old(self).last_checkpoint_lsn,
            final(self).fsync_count == old(self).fsync_count,
            final(self).checkpoint_count == old(self).checkpoint_count,
            final(self).entries_since_fsync == old(self).entries_since_fsync,
            final(self).entries_since_checkpoint == old(self).entries_since_checkpoint,
            final(self).fsync_interval == old(self).fsync_interval,
            final(self).checkpoint_interval == old(self).checkpoint_interval,
    {
        let lsn = self.next_lsn;
        let size_bytes = HEADER_SIZE + data_size;
        self.log.push(LogRecord { lsn, record_type, size_bytes });
        self.next_lsn = self.next_lsn + 1;
        self.total_bytes = self.total_bytes + size_bytes;
        lsn
    }

    /// The number of records in the log.
    pub fn log_entry_count(&self) -> (r: usize)
        ensures
            r == self.log().len(),
    {
        self.log.len()
    }

    /// The LSN of the last record written, 0 for an empty log.
    pub fn current_lsn(&self) -> (r: LSN)
        requires
            self.wf(),
        ensures
            r == self.log().len(),
    {
        self.next_lsn - 1
    }

    /// The log holds the LSNs 1 through `current_lsn()`, in order: record
    /// `i` has LSN `i + 1`, and the last has LSN `current_lsn()`.
    pub proof fn lemma_log_lsns(&self)
        requires
            self.wf(),
        ensures
            forall|i: int| 0 <= i < self.log().len() ==> (#[trigger] self.log()[i]).lsn == i + 1,
            self.log().len() > 0 ==> self.log()[self.log().len() - 1].lsn == self.log().len(),
    {
    }

    /// LSNs are consecutive from 1: the i-th record has LSN i + 1, so a later
    /// record always has a greater LSN.
    pub proof fn lemma_lsns_increase(&self, i: int, j: int)
        requires
            self.wf(),
            0 <= i < j < self.log().len(),
        ensures
            self.log()[i].lsn == i + 1,
            self.log()[i].lsn < self.log()[j].lsn,
    {
    }
}

impl WALBlock {
    fn build_documentation() -> (d: BlockDocumentation)
        ensures
            d.overview@ == "A Write-Ahead Log (WAL) ensures transaction durability by recording \
                           every modification before it is applied to the actual data. After a \
                           crash, the database replays the log to recover committed transactions \
                           and undo uncommitted ones."@,
            d.algorithm@ == "Write: append log record with LSN, fsync. Checkpoint: flush dirty \
                            pages, write checkpoint record, advance the recovery starting point. \
                            Recovery: scan log from last checkpoint, redo committed txns, undo \
                            uncommitted ones (ARIES protocol)."@,
            d.motivation@ == Seq::<char>::empty(),
            d.complexity.time@ == "O(1) per log append (sequential write), O(n) for recovery replay"@,
            d.complexity.space@ == "O(n) log entries between checkpoints"@,
            d.use_cases@.len() == 3,
            d.use_cases@[0]@ == "Crash recovery (every modern RDBMS uses WAL)"@,
            d.use_cases@[1]@ == "Replication (ship log to replicas)"@,
            d.use_cases@[2]@ == "Point-in-time recovery (replay log to target timestamp)"@,
            d.tradeoffs@.len() == 4,
            d.tradeoffs@[0]@ == "Sequential writes are fast but log grows continuously"@,
            d.tradeoffs@[1]@ == "Frequent fsyncs ensure durability but add latency"@,
            d.tradeoffs@[2]@ == "Checkpoints reduce recovery time but pause normal operations briefly"@,
            d.tradeoffs@[3]@ == "Group commit amortizes fsync cost across multiple transactions"@,
            d.examples@.len() == 3,
            d.examples@[0]@ == "PostgreSQL WAL (pg_wal directory)"@,
            d.examples@[1]@ == "MySQL InnoDB redo log"@,
            d.examples@[2]@ == "SQLite WAL mode"@,
            d.suggested_questions@.len() == 0,
            d.parameter_guide@.len() == 0,
            d.alternatives@.len() == 0,
    {
        let mut use_cases: Vec<String> = Vec::new();
        use_cases.push(String::from_str("Crash recovery (every modern RDBMS uses WAL)"));
        use_cases.push(String::from_str("Replication (ship log to replicas)"));
        use_cases.push(String::from_str("Point-in-time recovery (replay log to target timestamp)"));
        let mut tradeoffs: Vec<String> = Vec::new();
        tradeoffs.push(String::from_str("Sequential writes are fast but log grows continuously"));
        tradeoffs.push(String::from_str("Frequent fsyncs ensure durability but add latency"));
        tradeoffs.push(String::from_str("Checkpoints reduce recovery time but pause normal operations briefly"));
        tradeoffs.push(String::from_str("Group commit amortizes fsync cost across multiple transactions"));
        let mut examples: Vec<String> = Vec::new();
        examples.push(String::from_str("PostgreSQL WAL (pg_wal directory)"));
        examples.push(String::from_str("MySQL InnoDB redo log"));
        examples.push(String::from_str("SQLite WAL mode"));
        let mut suggested_questions: Vec<String> = Vec::new();
        let mut parameter_guide: Vec<(String, String)> = Vec::new();
        let mut alternatives: Vec<Alternative> = Vec::new();
        BlockDocumentation {
            overview: String::from_str("A Write-Ahead Log (WAL) ensures transaction durability by recording \
                           every modification before it is applied to the actual data. After a \
                           crash, the database replays the log to recover committed transactions \
                           and undo uncommitted ones."),
            algorithm: String::from_str("Write: append log record with LSN, fsync. Checkpoint: flush dirty \
                            pages, write checkpoint record, advance the recovery starting point. \
                            Recovery: scan log from last checkpoint, redo committed txns, undo \
                            uncommitted ones (ARIES protocol)."),
            complexity: Complexity { time: String::from_str("O(1) per log append (sequential write), O(n) for recovery replay"), space: String::from_str("O(n) log entries between checkpoints") },
            use_cases,
            tradeoffs,
            examples,
            motivation: String::new(),
            parameter_guide,
            alternatives,
            suggested_questions,
        }
    }

    fn build_references() -> (r: Vec<Reference>)
        ensures
            r@.len() == 1,
            r@[0].ref_type == ReferenceType::Paper,
            r@[0].title@ == "ARIES: A Transaction Recovery Method"@,
            r@[0].url is None,
            r@[0].citation matches Some(t) && t@ == "Mohan, C. et al. (1992). ACM TODS, 17(1), 94–162."@,
    {
        let mut r: Vec<Reference> = Vec::new();
        r.push(Reference { ref_type: ReferenceType::Paper, title: String::from_str("ARIES: A Transaction Recovery Method"), url: None, citation: Some(String::from_str("Mohan, C. et al. (1992). ACM TODS, 17(1), 94–162.")) });
        r
    }

    fn build_metadata() -> (m: BlockMetadata)
        ensures
            m.documentation.overview@ == "A Write-Ahead Log (WAL) ensures transaction durability by recording \
                           every modification before it is applied to the actual data. After a \
                           crash, the database replays the log to recover committed transactions \
                           and undo uncommitted ones."@,
            m.references@.len() == 1,
            m.id@ == "wal"@,
            m.category == BlockCategory::Transaction,
            m.name@ == "Write-Ahead Log"@,
            m.description@ == "Append-only log for crash recovery and transaction durability"@,
            m.version@ == "1.0.0"@,
            m.icon@ == "scroll-text"@,
            m.color@ == "#F97316"@,
    {
        BlockMetadata::new(
            "wal",
            "Write-Ahead Log",
            BlockCategory::Transaction,
            "Append-only log for crash recovery and transaction durability",
            "scroll-text",
            "#F97316",
            Self::build_documentation(),
            Self::build_references(),
        )
    }

    fn build_inputs() -> (p: Vec<Port>)
        ensures
            p@.len() == 1,
            p@[0].id@ == "records"@,
    {
        let mut p: Vec<Port> = Vec::new();
        p.push(
            Port::new(
                "records",
                "Records",
                PortDirection::Input,
                true,
                false,
                "Records representing write operations to log",
            ),
        );
        p
    }

    fn build_outputs() -> (p: Vec<Port>)
        ensures
            p@.len() == 1,
            p@[0].id@ == "logged"@,
    {
        let mut p: Vec<Port> = Vec::new();
        p.push(
            Port::new(
                "logged",
                "Logged Records",
                PortDirection::Output,
                false,
                true,
                "Records after being durably logged (with LSN)",
            ),
        );
        p
    }

    fn build_metrics() -> (v: Vec<MetricDefinition>)
        ensures
            v@.len() == 6,
            v@[0].id@ == "log_entries"@,
            v@[1].id@ == "bytes_written"@,
            v@[2].id@ == "fsyncs"@,
            v@[3].id@ == "checkpoints"@,
            v@[4].id@ == "log_size_bytes"@,
            v@[5].id@ == "oldest_lsn"@,
    {
        let mut v: Vec<MetricDefinition> = Vec::new();
        v.push(
            MetricDefinition::new(
                "log_entries",
                "Log Entries",
                MetricType::Counter,
                "entries",
                "Total log records written",
                AggregationType::Sum,
            ),
        );
        v.push(
            MetricDefinition::new(
                "bytes_written",
                "Bytes Written",
                MetricType::Counter,
                "bytes",
                "Total bytes written to log",
                AggregationType::Sum,
            ),
        );
        v.push(
            MetricDefinition::new(
                "fsyncs",
                "Fsyncs",
                MetricType::Counter,
                "ops",
                "fsync operations (simulated)",
                AggregationType::Sum,
            ),
        );
        v.push(
            MetricDefinition::new(
                "checkpoints",
                "Checkpoints",
                MetricType::Counter,
                "ops",
                "Checkpoint operations performed",
                AggregationType::Sum,
            ),
        );
        v.push(
            MetricDefinition::new(
                "log_size_bytes",
                "Log Size",
                MetricType::Gauge,
                "bytes",
                "Current total log size",
                AggregationType::Max,
            ),
        );
        v.push(
            MetricDefinition::new(
                "oldest_lsn",
                "Oldest LSN",
                MetricType::Gauge,
                "lsn",
                "Oldest un-checkpointed log sequence number",
                AggregationType::Max,
            ),
        );
        v
    }

    /// What the block says about itself.
    pub fn metadata(&self) -> (m: &BlockMetadata)
        ensures
            m == self.spec_metadata(),
    {
        &self.metadata
    }

    pub closed spec fn spec_metadata(&self) -> BlockMetadata {
        self.metadata
    }

    /// The block's input ports.
    pub fn inputs(&self) -> (p: &Vec<Port>)
        ensures
            p == self.spec_inputs(),
    {
        &self.input_ports
    }

    pub closed spec fn spec_inputs(&self) -> Vec<Port> {
        self.input_ports
    }

    /// The block's output ports.
    pub fn outputs(&self) -> (p: &Vec<Port>)
        ensures
            p == self.spec_outputs(),
    {
        &self.output_ports
    }

    pub closed spec fn spec_outputs(&self) -> Vec<Port> {
        self.output_ports
    }

    /// The metrics the block reports.
    pub fn metrics(&self) -> (m: &Vec<MetricDefinition>)
        ensures
            m == self.spec_metrics(),
    {
        &self.metric_defs
    }

    pub closed spec fn spec_metrics(&self) -> Vec<MetricDefinition> {
        self.metric_defs
    }
}

} // verus!
