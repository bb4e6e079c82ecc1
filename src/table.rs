use vstd::prelude::*;
use crate::record::{
    Record, lookup, lookup_live, live_records, duplicate_records, append_records, find_latest,
    find_latest_live, retain_live, lemma_live_records_lookup,
};
use crate::flusher::CheckpointMessage;

verus! {

/// The kind a table is declared with. `MissingTableType` stands for a configuration
/// that names no kind; no table can be built from it.
#[derive(Clone, Copy, Debug, PartialEq, Eq, Structural)]
pub enum TableKind {
    MissingTableType,
    GlobalKeyValue,
    /// Entries expire once their event time plus `retention` falls below the watermark.
    ExpiringKeyedTimeTable { retention: u64 },
}

/// A table's declaration: its name and kind.
#[derive(Debug)]
pub struct TableConfig {
    pub name: String,
    pub kind: TableKind,
}

impl TableConfig {
    pub fn new(name: String, kind: TableKind) -> (r: TableConfig)
        ensures
            r.name == name,
            r.kind == kind,
    {
        TableConfig { name, kind }
    }

    /// A fresh accumulator for `epoch`, seeded with the last completed checkpoint.
    pub fn epoch_checkpointer(&self, epoch: u32, prior: Option<&TableCheckpointMetadata>) -> (r: EpochCheckpointer)
        ensures
            r.table_name == self.name,
            r.kind == self.kind,
            r.epoch == epoch,
            r.writes@.len() == 0,
            r.seed@ == match prior {
                Some(m) => m.records@,
                None => Seq::empty(),
            },
    {
        let seed = match prior {
            Some(m) => duplicate_records(&m.records),
            None => Vec::new(),
        };
        EpochCheckpointer { table_name: self.name.clone(), kind: self.kind, epoch, seed, writes: Vec::new() }
    }

    pub fn duplicate(&self) -> (r: TableConfig)
        ensures
            r == *self,
    {
        TableConfig { name: self.name.clone(), kind: self.kind }
    }
}

/// Errors met while building tables or handing out views.
#[derive(Debug, PartialEq, Eq)]
pub enum StateError {
    /// A table configuration declares no kind.
    MissingTableType(String),
    /// A table name that was never declared.
    UnknownTable(String),
    /// Two tables declared under one name.
    DuplicateTable(String),
    /// A view of one kind asked of a table of the other kind.
    WrongTableType(String),
    /// A view asked with a key/value type pairing other than the cached one.
    TypeMismatch(String),
}

/// The key and value type names a keyed view is read and written with.
#[derive(Debug)]
pub struct ViewType {
    pub key_type: String,
    pub value_type: String,
}

impl ViewType {
    pub fn new(key_type: String, value_type: String) -> (r: ViewType)
        ensures
            r.key_type == key_type,
            r.value_type == value_type,
    {
        ViewType { key_type, value_type }
    }

    pub open spec fn same_as(&self, other: &ViewType) -> bool {
        self.key_type@ == other.key_type@ && self.value_type@ == other.value_type@
    }

    pub fn matches(&self, other: &ViewType) -> (r: bool)
        ensures
            r == self.same_as(other),
    {
        self.key_type == other.key_type && self.value_type == other.value_type
    }

    pub fn duplicate(&self) -> (r: ViewType)
        ensures
            r == *self,
    {
        ViewType { key_type: self.key_type.clone(), value_type: self.value_type.clone() }
    }
}

/// What one table made durable at one epoch: all records that replay its state, of
/// which those from `delta_start` on were added in this epoch.
#[derive(Debug)]
pub struct TableCheckpointMetadata {
    pub table_name: String,
    pub epoch: u32,
    pub records: Vec<Record>,
    pub delta_start: usize,
}

impl TableCheckpointMetadata {
    pub fn duplicate(&self) -> (r: TableCheckpointMetadata)
        ensures
            r.table_name == self.table_name,
            r.epoch == self.epoch,
            r.records@ == self.records@,
            r.delta_start == self.delta_start,
    {
        TableCheckpointMetadata {
            table_name: self.table_name.clone(),
            epoch: self.epoch,
            records: duplicate_records(&self.records),
            delta_start: self.delta_start,
        }
    }
}

/// The records a checkpoint of a table of `kind` holds, given what the last completed
/// checkpoint held (`seed`) and the writes of this epoch. Expiring tables drop what the
/// checkpoint's watermark has expired.
pub open spec fn checkpoint_records(kind: TableKind, seed: Seq<Record>, writes: Seq<Record>, watermark: Option<u64>) -> Seq<Record> {
    match kind {
        TableKind::ExpiringKeyedTimeTable { retention } => live_records(seed, retention, watermark)
            + live_records(writes, retention, watermark),
        _ => seed + writes,
    }
}

/// Where the records added in this epoch start within `checkpoint_records`.
pub open spec fn checkpoint_delta_start(kind: TableKind, seed: Seq<Record>, watermark: Option<u64>) -> nat {
    match kind {
        TableKind::ExpiringKeyedTimeTable { retention } => live_records(seed, retention, watermark).len(),
        _ => seed.len(),
    }
}

/// A checkpoint taken with no writes since the last one adds nothing: its delta is empty,
/// and what it holds replays to the same state as the last checkpoint alone.
pub proof fn lemma_empty_delta(kind: TableKind, seed: Seq<Record>, watermark: Option<u64>)
    ensures
        checkpoint_records(kind, seed, Seq::empty(), watermark).len() == checkpoint_delta_start(kind, seed, watermark),
        kind matches TableKind::ExpiringKeyedTimeTable { retention } ==> forall|k: Seq<char>|
            #[trigger] lookup_live(checkpoint_records(kind, seed, Seq::empty(), watermark), k, retention, watermark)
                == lookup_live(seed, k, retention, watermark),
        !(kind is ExpiringKeyedTimeTable) ==> checkpoint_records(kind, seed, Seq::empty(), watermark) == seed,
{
    let empty = Seq::<Record>::empty();
    assert(seed + empty =~= seed);
    if let TableKind::ExpiringKeyedTimeTable { retention } = kind {
        let l = live_records(seed, retention, watermark);
        assert(live_records(empty, retention, watermark) =~= empty);
        assert(l + empty =~= l);
        assert forall|k: Seq<char>| #[trigger] lookup_live(checkpoint_records(kind, seed, empty, watermark), k, retention, watermark)
            == lookup_live(seed, k, retention, watermark) by {
            lemma_live_records_lookup(seed, k, retention, watermark);
        }
    }
}

/// The per-table, per-epoch accumulator of writes.
#[derive(Debug)]
pub struct EpochCheckpointer {
    pub table_name: String,
    pub kind: TableKind,
    pub epoch: u32,
    /// The records of the last completed checkpoint of this table.
    pub seed: Vec<Record>,
    /// The writes received in this epoch, in order.
    pub writes: Vec<Record>,
}

impl EpochCheckpointer {
    /// Appends one write.
    pub fn insert_data(&mut self, data: Record)
        ensures
            final(self).writes@ == old(self).writes@.push(data),
            final(self).seed@ == old(self).seed@,
            final(self).table_name == old(self).table_name,
            final(self).kind == old(self).kind,
            final(self).epoch == old(self).epoch,
    {
        self.writes.push(data);
    }

    /// Closes the epoch: the table's checkpoint, or `None` when it holds no state.
    pub fn finish(&self, checkpoint: &CheckpointMessage) -> (r: Option<TableCheckpointMetadata>)
        ensures
            ({
                let recs = checkpoint_records(self.kind, self.seed@, self.writes@, checkpoint.watermark);
                match r {
                    None => recs.len() == 0,
                    Some(m) => recs.len() > 0 && m.records@ == recs && m.table_name == self.table_name
                        && m.epoch == self.epoch
                        && m.delta_start == checkpoint_delta_start(self.kind, self.seed@, checkpoint.watermark),
                }
            }),
    {
        let (records, delta_start) = match self.kind {
            TableKind::ExpiringKeyedTimeTable { retention } => {
                let old_part = retain_live(&self.seed, retention, checkpoint.watermark);
                let new_part = retain_live(&self.writes, retention, checkpoint.watermark);
                let start = old_part.len();
                (append_records(old_part, &new_part), start)
            },
            _ => (append_records(duplicate_records(&self.seed), &self.writes), self.seed.len()),
        };
        if records.len() == 0 {
            None
        } else {
            Some(TableCheckpointMetadata { table_name: self.table_name.clone(), epoch: self.epoch, records, delta_start })
        }
    }
}

/// The live handle on a global keyed table: a map from key to value, the last write winning.
#[derive(Debug)]
pub struct GlobalKeyedView {
    pub table_name: String,
    pub view_type: ViewType,
    pub records: Vec<Record>,
}

impl GlobalKeyedView {
    pub open spec fn value_of(&self, key: Seq<char>) -> Option<i64> {
        lookup(self.records@, key)
    }

    pub fn get(&self, key: &String) -> (r: Option<i64>)
        ensures
            r == self.value_of(key@),
    {
        find_latest(&self.records, key)
    }

    /// Writes `key → value` in memory and returns the record to enqueue for checkpointing.
    pub fn put(&mut self, key: String, value: i64) -> (r: Record)
        ensures
            r.key == key,
            r.time == 0,
            r.value == value,
            final(self).records@ == old(self).records@.push(r),
            final(self).table_name == old(self).table_name,
            final(self).view_type == old(self).view_type,
            forall|k: Seq<char>| #[trigger] final(self).value_of(k)
                == if k == key@ { Some(value) } else { old(self).value_of(k) },
    {
        let r = Record::new(key, 0, value);
        self.records.push(r.duplicate());
        proof {
            assert(self.records@.drop_last() =~= old(self).records@);
        }
        r
    }
}

/// The live handle on an expiring time-keyed table. Entries whose event time plus the
/// retention lies strictly below the watermark are absent.
#[derive(Debug)]
pub struct ExpiringTimeKeyView {
    pub table_name: String,
    pub retention: u64,
    pub watermark: Option<u64>,
    pub records: Vec<Record>,
}

/// The later of two watermarks, where none is earliest.
pub open spec fn later_watermark(a: Option<u64>, b: Option<u64>) -> Option<u64> {
    match (a, b) {
        (Some(x), Some(y)) => Some(if x >= y { x } else { y }),
        (Some(x), None) => Some(x),
        (None, y) => y,
    }
}

impl ExpiringTimeKeyView {
    pub open spec fn value_of(&self, key: Seq<char>) -> Option<i64> {
        lookup_live(self.records@, key, self.retention, self.watermark)
    }

    pub fn get(&self, key: &String) -> (r: Option<i64>)
        ensures
            r == self.value_of(key@),
    {
        find_latest_live(&self.records, key, self.retention, self.watermark)
    }

    /// Writes `key → value` stamped `time` and returns the record to enqueue.
    pub fn insert(&mut self, key: String, time: u64, value: i64) -> (r: Record)
        ensures
            r.key == key,
            r.time == time,
            r.value == value,
            final(self).records@ == old(self).records@.push(r),
            final(self).table_name == old(self).table_name,
            final(self).retention == old(self).retention,
            final(self).watermark == old(self).watermark,
    {
        let r = Record::new(key, time, value);
        self.records.push(r.duplicate());
        r
    }

    /// Moves the watermark forward (never back) and evicts what it expired.
    pub fn advance_watermark(&mut self, watermark: Option<u64>)
        ensures
            final(self).watermark == later_watermark(old(self).watermark, watermark),
            final(self).records@ == live_records(old(self).records@, old(self).retention, final(self).watermark),
            final(self).table_name == old(self).table_name,
            final(self).retention == old(self).retention,
    {
        let next = match (self.watermark, watermark) {
            (Some(x), Some(y)) => Some(if x >= y { x } else { y }),
            (Some(x), None) => Some(x),
            (None, y) => y,
        };
        self.watermark = next;
        self.records = retain_live(&self.records, self.retention, next);
    }
}

/// One table of a task: its declaration and the records restored from the last checkpoint.
#[derive(Debug)]
pub struct Table {
    pub config: TableConfig,
    pub restored: Vec<Record>,
}

impl Table {
    /// Builds a table, empty or holding the records of `restore_from`.
    pub fn from_config(config: TableConfig, restore_from: Option<&TableCheckpointMetadata>) -> (r: Result<Table, StateError>)
        ensures
            config.kind == TableKind::MissingTableType <==> r.is_err(),
            r matches Err(e) ==> e == StateError::MissingTableType(config.name),
            r matches Ok(t) ==> t.config == config && t.restored@ == match restore_from {
                Some(m) => m.records@,
                None => Seq::empty(),
            },
    {
        if config.kind == TableKind::MissingTableType {
            return Err(StateError::MissingTableType(config.name));
        }
        let restored = match restore_from {
            Some(m) => duplicate_records(&m.records),
            None => Vec::new(),
        };
        Ok(Table { config, restored })
    }

    /// What the last completed checkpoint of this table looked like, recovered on restore
    /// so that later checkpoints extend it rather than repeat it.
    pub fn subtask_metadata_from_table(&self, prior: &TableCheckpointMetadata) -> (r: Option<TableCheckpointMetadata>)
        ensures
            prior.records@.len() == 0 <==> r is None,
            r matches Some(m) ==> m.records@ == prior.records@ && m.table_name == self.config.name
                && m.epoch == prior.epoch && m.delta_start == prior.records@.len(),
    {
        if prior.records.len() == 0 {
            None
        } else {
            Some(TableCheckpointMetadata {
                table_name: self.config.name.clone(),
                epoch: prior.epoch,
                records: duplicate_records(&prior.records),
                delta_start: prior.records.len(),
            })
        }
    }

    /// A view of a global keyed table, read and written as `view_type`.
    pub fn global_view(&self, view_type: ViewType) -> (r: GlobalKeyedView)
        ensures
            r.table_name == self.config.name,
            r.view_type == view_type,
            r.records@ == self.restored@,
    {
        GlobalKeyedView { table_name: self.config.name.clone(), view_type, records: duplicate_records(&self.restored) }
    }

    /// A view of an expiring table under `watermark`; `retention` is the table's.
    pub fn expiring_view(&self, retention: u64, watermark: Option<u64>) -> (r: ExpiringTimeKeyView)
        ensures
            r.table_name == self.config.name,
            r.retention == retention,
            r.watermark == watermark,
            r.records@ == live_records(self.restored@, retention, watermark),
    {
        ExpiringTimeKeyView {
            table_name: self.config.name.clone(),
            retention,
            watermark,
            records: retain_live(&self.restored, retention, watermark),
        }
    }
}

} // verus!
