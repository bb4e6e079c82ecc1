use vstd::prelude::*;
use crate::record::{Record, lookup};
use crate::table::{
    TableConfig, TableKind, TableCheckpointMetadata, EpochCheckpointer, checkpoint_records,
    checkpoint_delta_start,
};

verus! {

/// The marker that closes an epoch on the state channel.
#[derive(Clone, Copy, Debug, PartialEq, Eq, Structural)]
pub struct CheckpointMessage {
    pub epoch: u32,
    pub time: u64,
    pub watermark: Option<u64>,
    pub then_stop: bool,
}

/// What travels, strictly in order, from the task to the flusher.
#[derive(Debug)]
pub enum StateMessage {
    TableData { table: String, data: Record },
    Checkpoint(CheckpointMessage),
}

/// The identity of the task that owns the tables.
#[derive(Debug)]
pub struct TaskInfo {
    pub operator_id: String,
    pub task_index: u32,
}

impl TaskInfo {
    pub fn new(operator_id: String, task_index: u32) -> (r: TaskInfo)
        ensures
            r.operator_id == operator_id,
            r.task_index == task_index,
    {
        TaskInfo { operator_id, task_index }
    }

    pub fn duplicate(&self) -> (r: TaskInfo)
        ensures
            r == *self,
    {
        TaskInfo { operator_id: self.operator_id.clone(), task_index: self.task_index }
    }
}

/// One task's result for one checkpoint: only tables that hold state appear.
#[derive(Debug)]
pub struct SubtaskCheckpointMetadata {
    pub subtask_index: u32,
    pub start_time: u64,
    /// Set once the checkpoint is durable; until then it repeats `start_time`.
    pub finish_time: u64,
    pub watermark: Option<u64>,
    pub has_state: bool,
    pub table_metadata: Vec<TableCheckpointMetadata>,
}

#[derive(Debug)]
pub struct CheckpointCompleted {
    /// The epoch of the checkpoint marker, which is the flusher's own epoch: a marker out
    /// of step with it fails the task.
    pub checkpoint_epoch: u32,
    pub operator_id: String,
    pub subtask_metadata: SubtaskCheckpointMetadata,
}

/// Events reported to the control channel.
#[derive(Debug)]
pub enum ControlResp {
    CheckpointCompleted(CheckpointCompleted),
    TaskFailed { operator_id: String, task_index: u32, error: String },
}

/// What the flusher is handed: a message off the channel, the channel's closing, or the
/// outcome of the durable write it asked for.
#[derive(Debug)]
pub enum FlusherEvent {
    Message(StateMessage),
    Closed,
    Persisted { finish_time: u64 },
    PersistFailed { error: String },
}

/// What the flusher asks its runner to do next.
#[derive(Debug)]
pub enum FlusherAction {
    /// Read the next message.
    Continue,
    /// Write the pending checkpoint (the phase's metadata) to durable storage.
    Persist,
    /// Send this event to the control channel, then read on.
    Report(ControlResp),
    /// Send this event, signal that the final checkpoint is done, and stop.
    ReportAndFinish(ControlResp),
    /// Send this failure and stop.
    Fail(ControlResp),
    /// The channel closed with no checkpoint outstanding: stop.
    Exit,
    /// The event does not apply in this phase and changed nothing; it is handed back.
    NotTaken(FlusherEvent),
}

#[derive(Debug)]
pub enum FlusherPhase {
    Accumulating,
    Finalizing { checkpoint: CheckpointMessage, metadata: SubtaskCheckpointMetadata },
    Terminated,
}

/// The writes for table `name` among `ms`, in order.
pub open spec fn routed(ms: Seq<StateMessage>, name: Seq<char>) -> Seq<Record>
    decreases ms.len(),
{
    if ms.len() == 0 {
        Seq::empty()
    } else {
        match ms.last() {
            StateMessage::TableData { table, data } => if table@ == name {
                routed(ms.drop_last(), name).push(data)
            } else {
                routed(ms.drop_last(), name)
            },
            _ => routed(ms.drop_last(), name),
        }
    }
}

/// The records that the checkpoint of table `name` in `ms` holds; none when it is absent.
pub open spec fn seed_of(ms: Seq<TableCheckpointMetadata>, name: Seq<char>) -> Seq<Record>
    decreases ms.len(),
{
    if ms.len() == 0 {
        Seq::empty()
    } else if ms.last().table_name@ == name {
        ms.last().records@
    } else {
        seed_of(ms.drop_last(), name)
    }
}

/// The checkpoint of table `name` in `ms`, the last one when several name it.
pub open spec fn entry_of(ms: Seq<TableCheckpointMetadata>, name: Seq<char>) -> Option<TableCheckpointMetadata>
    decreases ms.len(),
{
    if ms.len() == 0 {
        None
    } else if ms.last().table_name@ == name {
        Some(ms.last())
    } else {
        entry_of(ms.drop_last(), name)
    }
}

/// `seed_of` reads the records of `entry_of`.
pub proof fn lemma_seed_of_entry(ms: Seq<TableCheckpointMetadata>, name: Seq<char>)
    ensures
        seed_of(ms, name) == match entry_of(ms, name) {
            Some(e) => e.records@,
            None => Seq::<Record>::empty(),
        },
    decreases ms.len(),
{
    if ms.len() > 0 {
        lemma_seed_of_entry(ms.drop_last(), name);
    }
}

/// Table names are pairwise distinct.
pub open spec fn distinct_names(ts: Seq<TableConfig>) -> bool {
    forall|i: int, j: int| 0 <= i < j < ts.len() ==> ts[i].name@ != ts[j].name@
}

/// `ms` is what finishing `cps` in order yields under `watermark`: one entry per
/// checkpointer whose records are not empty.
pub open spec fn finished_all(ms: Seq<TableCheckpointMetadata>, cps: Seq<EpochCheckpointer>, watermark: Option<u64>) -> bool
    decreases cps.len(),
{
    if cps.len() == 0 {
        ms.len() == 0
    } else {
        let c = cps.last();
        let recs = checkpoint_records(c.kind, c.seed@, c.writes@, watermark);
        if recs.len() == 0 {
            finished_all(ms, cps.drop_last(), watermark)
        } else {
            ms.len() > 0 && ms.last().records@ == recs && ms.last().table_name == c.table_name
                && ms.last().epoch == c.epoch
                && ms.last().delta_start == checkpoint_delta_start(c.kind, c.seed@, watermark)
                && finished_all(ms.drop_last(), cps.drop_last(), watermark)
        }
    }
}

/// The same table checkpoints, entry by entry.
pub open spec fn same_tables(a: Seq<TableCheckpointMetadata>, b: Seq<TableCheckpointMetadata>) -> bool {
    &&& a.len() == b.len()
    &&& forall|i: int| 0 <= i < a.len() ==> {
        &&& #[trigger] a[i].table_name@ == b[i].table_name@
        &&& a[i].epoch == b[i].epoch
        &&& a[i].records@ == b[i].records@
        &&& a[i].delta_start == b[i].delta_start
    }
}

pub proof fn lemma_same_tables_seed(a: Seq<TableCheckpointMetadata>, b: Seq<TableCheckpointMetadata>, name: Seq<char>)
    requires
        same_tables(a, b),
    ensures
        seed_of(a, name) == seed_of(b, name),
    decreases a.len(),
{
    if a.len() > 0 {
        assert(a[a.len() - 1].table_name@ == b[b.len() - 1].table_name@);
        lemma_same_tables_seed(a.drop_last(), b.drop_last(), name);
    }
}

/// Finds the last checkpoint of table `name`.
pub fn find_table_metadata(ms: &Vec<TableCheckpointMetadata>, name: &String) -> (r: Option<usize>)
    ensures
        match r {
            None => seed_of(ms@, name@) == Seq::<Record>::empty() && entry_of(ms@, name@) is None,
            Some(i) => i < ms@.len() && seed_of(ms@, name@) == ms@[i as int].records@
                && ms@[i as int].table_name@ == name@ && entry_of(ms@, name@) == Some(ms@[i as int]),
        },
{
    let mut i: usize = ms.len();
    assert(ms@.take(i as int) =~= ms@);
    while i > 0
        invariant
            i <= ms.len(),
            seed_of(ms@, name@) == seed_of(ms@.take(i as int), name@),
            entry_of(ms@, name@) == entry_of(ms@.take(i as int), name@),
        decreases i,
    {
        assert(ms@.take(i as int).drop_last() =~= ms@.take(i - 1));
        if ms[i - 1].table_name == *name {
            return Some(i - 1);
        }
        i = i - 1;
    }
    None
}

/// A copy of each table checkpoint.
pub fn duplicate_tables(ms: &Vec<TableCheckpointMetadata>) -> (r: Vec<TableCheckpointMetadata>)
    ensures
        same_tables(r@, ms@),
{
    let mut out: Vec<TableCheckpointMetadata> = Vec::new();
    let mut i: usize = 0;
    while i < ms.len()
        invariant
            i <= ms.len(),
            out@.len() == i,
            forall|j: int| 0 <= j < i ==> {
                &&& #[trigger] out@[j].table_name@ == ms@[j].table_name@
                &&& out@[j].epoch == ms@[j].epoch
                &&& out@[j].records@ == ms@[j].records@
                &&& out@[j].delta_start == ms@[j].delta_start
            },
        decreases ms.len() - i,
    {
        out.push(ms[i].duplicate());
        i = i + 1;
    }
    out
}

/// The background consumer of the state channel, as a state machine: it accumulates each
/// table's writes for the current epoch and, on a checkpoint marker, finishes every table,
/// has the result made durable and reports it.
pub struct BackendFlusher {
    pub task_info: TaskInfo,
    pub tables: Vec<TableConfig>,
    pub current_epoch: u32,
    /// One per table, in the order of `tables`.
    pub checkpointers: Vec<EpochCheckpointer>,
    /// The table checkpoints of the last completed epoch, which seed the current one.
    pub last_epoch_checkpoints: Vec<TableCheckpointMetadata>,
    pub phase: FlusherPhase,
    /// The table writes taken in since the last checkpoint marker, in order.
    pub epoch_writes: Ghost<Seq<StateMessage>>,
}

impl BackendFlusher {
    /// The epoch, its checkpointers, its seeds and its write log are those of `other`.
    pub open spec fn keeps_epoch_of(&self, other: &BackendFlusher) -> bool {
        &&& self.current_epoch == other.current_epoch
        &&& self.checkpointers == other.checkpointers
        &&& self.last_epoch_checkpoints == other.last_epoch_checkpoints
        &&& self.epoch_writes == other.epoch_writes
    }

    pub open spec fn wf(&self) -> bool {
        &&& distinct_names(self.tables@)
        &&& self.checkpointers@.len() == self.tables@.len()
        &&& forall|i: int| 0 <= i < self.tables@.len() ==> {
            let c = #[trigger] self.checkpointers@[i];
            &&& c.table_name == self.tables@[i].name
            &&& c.kind == self.tables@[i].kind
            &&& c.epoch == self.current_epoch
            &&& c.seed@ == seed_of(self.last_epoch_checkpoints@, self.tables@[i].name@)
            &&& c.writes@ == routed(self.epoch_writes@, self.tables@[i].name@)
        }
        &&& self.phase matches FlusherPhase::Finalizing { checkpoint, .. } ==> checkpoint.epoch == self.current_epoch
    }

    /// A flusher at `epoch`, whose checkpointers extend `last_epoch_checkpoints`.
    pub fn new(
        task_info: TaskInfo,
        tables: Vec<TableConfig>,
        current_epoch: u32,
        last_epoch_checkpoints: Vec<TableCheckpointMetadata>,
    ) -> (r: BackendFlusher)
        requires
            distinct_names(tables@),
        ensures
            r.wf(),
            r.task_info == task_info,
            r.tables == tables,
            r.current_epoch == current_epoch,
            r.last_epoch_checkpoints == last_epoch_checkpoints,
            r.phase is Accumulating,
            r.epoch_writes@.len() == 0,
    {
        let checkpointers = Self::open_epoch(&tables, current_epoch, &last_epoch_checkpoints);
        BackendFlusher {
            task_info,
            tables,
            current_epoch,
            checkpointers,
            last_epoch_checkpoints,
            phase: FlusherPhase::Accumulating,
            epoch_writes: Ghost(Seq::empty()),
        }
    }

    /// Fresh checkpointers for `epoch`, one per table, each seeded from `seeds`.
    fn open_epoch(tables: &Vec<TableConfig>, epoch: u32, seeds: &Vec<TableCheckpointMetadata>) -> (r: Vec<EpochCheckpointer>)
        ensures
            r@.len() == tables@.len(),
            forall|i: int| 0 <= i < tables@.len() ==> {
                let c = #[trigger] r@[i];
                &&& c.table_name == tables@[i].name
                &&& c.kind == tables@[i].kind
                &&& c.epoch == epoch
                &&& c.seed@ == seed_of(seeds@, tables@[i].name@)
                &&& c.writes@ == Seq::<Record>::empty()
            },
    {
        let mut out: Vec<EpochCheckpointer> = Vec::new();
        let mut i: usize = 0;
        while i < tables.len()
            invariant
                i <= tables.len(),
                out@.len() == i,
                forall|j: int| 0 <= j < i ==> {
                    let c = #[trigger] out@[j];
                    &&& c.table_name == tables@[j].name
                    &&& c.kind == tables@[j].kind
                    &&& c.epoch == epoch
                    &&& c.seed@ == seed_of(seeds@, tables@[j].name@)
                    &&& c.writes@ == Seq::<Record>::empty()
                },
            decreases tables.len() - i,
        {
            let cp = match find_table_metadata(seeds, &tables[i].name) {
                Some(k) => tables[i].epoch_checkpointer(epoch, Some(&seeds[k])),
                None => tables[i].epoch_checkpointer(epoch, None),
            };
            out.push(cp);
            i = i + 1;
        }
        out
    }

    /// Finishes every checkpointer under the marker's watermark.
    fn finish_all(cps: &Vec<EpochCheckpointer>, checkpoint: &CheckpointMessage) -> (r: Vec<TableCheckpointMetadata>)
        ensures
            finished_all(r@, cps@, checkpoint.watermark),
    {
        let mut out: Vec<TableCheckpointMetadata> = Vec::new();
        let mut i: usize = 0;
        while i < cps.len()
            invariant
                i <= cps.len(),
                finished_all(out@, cps@.take(i as int), checkpoint.watermark),
            decreases cps.len() - i,
        {
            assert(cps@.take(i + 1).drop_last() =~= cps@.take(i as int));
            match cps[i].finish(checkpoint) {
                Some(m) => {
                    let ghost before = out@;
                    out.push(m);
                    assert(out@.drop_last() =~= before);
                },
                None => {},
            }
            i = i + 1;
        }
        assert(cps@.take(cps.len() as int) =~= cps@);
        out
    }

    /// Takes one event and returns what the runner must do next.
    ///
    /// While accumulating, each table write goes to its table's checkpointer; a checkpoint
    /// marker finishes every checkpointer into the pending metadata and asks for it to be
    /// persisted; a marker whose epoch is not the flusher's current one fails the task
    /// instead. Once persisted, the completion is reported under the marker's epoch; after
    /// a stopping marker the
    /// flusher terminates, otherwise the next epoch opens, seeded with this one. A failed
    /// write is reported and terminates the flusher. An event that does not fit the phase
    /// (all of them, once terminated) is handed back with nothing changed.
    pub fn step(&mut self, event: FlusherEvent) -> (action: FlusherAction)
        requires
            old(self).wf(),
        ensures
            final(self).wf(),
            final(self).task_info == old(self).task_info,
            final(self).tables == old(self).tables,
            old(self).phase is Terminated ==> *final(self) == *old(self) && action == FlusherAction::NotTaken(event),
            old(self).phase is Accumulating ==> match event {
                FlusherEvent::Message(StateMessage::TableData { table, data }) => if has_table(old(self).tables@, table@) {
                    &&& action is Continue
                    &&& final(self).phase is Accumulating
                    &&& final(self).epoch_writes@ == old(self).epoch_writes@.push(StateMessage::TableData { table, data })
                    &&& final(self).current_epoch == old(self).current_epoch
                    &&& final(self).last_epoch_checkpoints == old(self).last_epoch_checkpoints
                } else {
                    &&& final(self).phase is Terminated
                    &&& final(self).keeps_epoch_of(old(self))
                    &&& action matches FlusherAction::Fail(ControlResp::TaskFailed { operator_id, task_index, .. })
                        && operator_id == old(self).task_info.operator_id && task_index == old(self).task_info.task_index
                },
                FlusherEvent::Message(StateMessage::Checkpoint(cp)) => if cp.epoch != old(self).current_epoch {
                    &&& final(self).phase is Terminated
                    &&& final(self).keeps_epoch_of(old(self))
                    &&& action matches FlusherAction::Fail(ControlResp::TaskFailed { operator_id, task_index, .. })
                        && operator_id == old(self).task_info.operator_id && task_index == old(self).task_info.task_index
                } else {
                    &&& action is Persist
                    &&& final(self).checkpointers == old(self).checkpointers
                    &&& final(self).current_epoch == old(self).current_epoch
                    &&& final(self).epoch_writes == old(self).epoch_writes
                    &&& final(self).last_epoch_checkpoints == old(self).last_epoch_checkpoints
                    &&& match final(self).phase {
                        FlusherPhase::Finalizing { checkpoint, metadata } => {
                            &&& checkpoint == cp
                            &&& metadata.subtask_index == old(self).task_info.task_index
                            &&& metadata.start_time == cp.time
                            &&& metadata.watermark == cp.watermark
                            &&& metadata.has_state == (metadata.table_metadata@.len() > 0)
                            &&& finished_all(metadata.table_metadata@, old(self).checkpointers@, cp.watermark)
                        },
                        _ => false,
                    }
                },
                FlusherEvent::Closed => final(self).phase is Terminated && final(self).keeps_epoch_of(old(self))
                    && action is Exit,
                _ => *final(self) == *old(self) && action == FlusherAction::NotTaken(event),
            },
            old(self).phase matches FlusherPhase::Finalizing { checkpoint, metadata } ==> match event {
                FlusherEvent::Persisted { finish_time } => {
                    let done = |c: CheckpointCompleted| {
                        &&& c.checkpoint_epoch == checkpoint.epoch
                        &&& c.checkpoint_epoch == old(self).current_epoch
                        &&& c.operator_id == old(self).task_info.operator_id
                        &&& c.subtask_metadata.table_metadata == metadata.table_metadata
                        &&& c.subtask_metadata.subtask_index == metadata.subtask_index
                        &&& c.subtask_metadata.start_time == metadata.start_time
                        &&& c.subtask_metadata.watermark == metadata.watermark
                        &&& c.subtask_metadata.has_state == metadata.has_state
                        &&& c.subtask_metadata.finish_time == finish_time
                    };
                    if checkpoint.then_stop {
                        &&& final(self).phase is Terminated
                        &&& final(self).keeps_epoch_of(old(self))
                        &&& action matches FlusherAction::ReportAndFinish(ControlResp::CheckpointCompleted(c)) && done(c)
                    } else if old(self).current_epoch < u32::MAX {
                        &&& final(self).phase is Accumulating
                        &&& action matches FlusherAction::Report(ControlResp::CheckpointCompleted(c)) && done(c)
                            && completion_step(*old(self), *final(self), c)
                        &&& final(self).current_epoch == old(self).current_epoch + 1
                        &&& final(self).epoch_writes@.len() == 0
                        &&& same_tables(final(self).last_epoch_checkpoints@, metadata.table_metadata@)
                    } else {
                        &&& final(self).phase is Terminated
                        &&& final(self).keeps_epoch_of(old(self))
                        &&& action is Fail
                    }
                },
                FlusherEvent::PersistFailed { error } => {
                    &&& final(self).phase is Terminated
                    &&& final(self).keeps_epoch_of(old(self))
                    &&& action matches FlusherAction::Fail(ControlResp::TaskFailed { operator_id, task_index, error: e })
                        && operator_id == old(self).task_info.operator_id
                        && task_index == old(self).task_info.task_index && e == error
                },
                _ => *final(self) == *old(self) && action == FlusherAction::NotTaken(event),
            },
    {
        let mut phase = FlusherPhase::Terminated;
        core::mem::swap(&mut self.phase, &mut phase);
        match phase {
            FlusherPhase::Terminated => FlusherAction::NotTaken(event),
            FlusherPhase::Accumulating => match event {
                FlusherEvent::Message(StateMessage::TableData { table, data }) => {
                    match find_table(&self.tables, &table) {
                        Some(i) => {
                            let ghost before = self.epoch_writes@;
                            self.epoch_writes = Ghost(before.push(StateMessage::TableData { table, data }));
                            proof {
                                assert(self.epoch_writes@.drop_last() =~= before);
                            }
                            let mut c = self.checkpointers.remove(i);
                            c.insert_data(data);
                            self.checkpointers.insert(i, c);
                            proof {
                                assert forall|j: int| 0 <= j < self.tables@.len() implies
                                    #[trigger] self.checkpointers@[j].writes@ == routed(self.epoch_writes@, self.tables@[j].name@) by {
                                    if j != i {
                                        assert(self.checkpointers@[j] == old(self).checkpointers@[j]);
                                    }
                                }
                            }
                            self.phase = FlusherPhase::Accumulating;
                            FlusherAction::Continue
                        },
                        None => FlusherAction::Fail(ControlResp::TaskFailed {
                            operator_id: self.task_info.operator_id.clone(),
                            task_index: self.task_info.task_index,
                            error: "state written to an undeclared table".to_owned(),
                        }),
                    }
                },
                FlusherEvent::Message(StateMessage::Checkpoint(cp)) => {
                    if cp.epoch != self.current_epoch {
                        return FlusherAction::Fail(ControlResp::TaskFailed {
                            operator_id: self.task_info.operator_id.clone(),
                            task_index: self.task_info.task_index,
                            error: "checkpoint barrier out of epoch order".to_owned(),
                        });
                    }
                    let tables = Self::finish_all(&self.checkpointers, &cp);
                    let has_state = tables.len() > 0;
                    let metadata = SubtaskCheckpointMetadata {
                        subtask_index: self.task_info.task_index,
                        start_time: cp.time,
                        finish_time: cp.time,
                        watermark: cp.watermark,
                        has_state,
                        table_metadata: tables,
                    };
                    self.phase = FlusherPhase::Finalizing { checkpoint: cp, metadata };
                    FlusherAction::Persist
                },
                FlusherEvent::Closed => FlusherAction::Exit,
                other => {
                    self.phase = FlusherPhase::Accumulating;
                    FlusherAction::NotTaken(other)
                },
            },
            FlusherPhase::Finalizing { checkpoint, metadata } => match event {
                FlusherEvent::Persisted { finish_time } => {
                    let mut metadata = metadata;
                    metadata.finish_time = finish_time;
                    if checkpoint.then_stop {
                        FlusherAction::ReportAndFinish(ControlResp::CheckpointCompleted(CheckpointCompleted {
                            checkpoint_epoch: checkpoint.epoch,
                            operator_id: self.task_info.operator_id.clone(),
                            subtask_metadata: metadata,
                        }))
                    } else if self.current_epoch < u32::MAX {
                        let seeds = duplicate_tables(&metadata.table_metadata);
                        self.current_epoch = self.current_epoch + 1;
                        self.checkpointers = Self::open_epoch(&self.tables, self.current_epoch, &seeds);
                        self.last_epoch_checkpoints = seeds;
                        self.epoch_writes = Ghost(Seq::empty());
                        self.phase = FlusherPhase::Accumulating;
                        FlusherAction::Report(ControlResp::CheckpointCompleted(CheckpointCompleted {
                            checkpoint_epoch: checkpoint.epoch,
                            operator_id: self.task_info.operator_id.clone(),
                            subtask_metadata: metadata,
                        }))
                    } else {
                        FlusherAction::Fail(ControlResp::TaskFailed {
                            operator_id: self.task_info.operator_id.clone(),
                            task_index: self.task_info.task_index,
                            error: "epoch counter exhausted".to_owned(),
                        })
                    }
                },
                FlusherEvent::PersistFailed { error } => FlusherAction::Fail(ControlResp::TaskFailed {
                    operator_id: self.task_info.operator_id.clone(),
                    task_index: self.task_info.task_index,
                    error,
                }),
                other => {
                    self.phase = FlusherPhase::Finalizing { checkpoint, metadata };
                    FlusherAction::NotTaken(other)
                },
            },
        }
    }
}

/// Some table is named `name`.
pub open spec fn has_table(ts: Seq<TableConfig>, name: Seq<char>) -> bool {
    exists|i: int| 0 <= i < ts.len() && ts[i].name@ == name
}

/// The position of the table named `name`.
pub fn find_table(ts: &Vec<TableConfig>, name: &String) -> (r: Option<usize>)
    ensures
        match r {
            None => !has_table(ts@, name@),
            Some(i) => i < ts@.len() && ts@[i as int].name@ == name@,
        },
{
    let mut i: usize = 0;
    while i < ts.len()
        invariant
            i <= ts.len(),
            forall|j: int| 0 <= j < i ==> ts@[j].name@ != name@,
        decreases ts.len() - i,
    {
        if ts[i].name == *name {
            return Some(i);
        }
        i = i + 1;
    }
    None
}

/// Finishing distinctly named checkpointers leaves, under each name, exactly that
/// checkpointer's records; a name that none carries gets nothing.
pub proof fn lemma_finished_seed(ms: Seq<TableCheckpointMetadata>, cps: Seq<EpochCheckpointer>, watermark: Option<u64>)
    requires
        finished_all(ms, cps, watermark),
        forall|i: int, j: int| 0 <= i < j < cps.len() ==> cps[i].table_name@ != cps[j].table_name@,
    ensures
        forall|i: int| 0 <= i < cps.len() ==> seed_of(ms, (#[trigger] cps[i]).table_name@)
            == checkpoint_records(cps[i].kind, cps[i].seed@, cps[i].writes@, watermark),
        forall|n: Seq<char>| (forall|i: int| 0 <= i < cps.len() ==> (#[trigger] cps[i]).table_name@ != n)
            ==> seed_of(ms, n) == Seq::<Record>::empty(),
        forall|i: int| 0 <= i < ms.len() ==> exists|j: int| 0 <= j < cps.len() && (#[trigger] ms[i]).epoch == cps[j].epoch,
    decreases cps.len(),
{
    if cps.len() > 0 {
        let c = cps.last();
        let recs = checkpoint_records(c.kind, c.seed@, c.writes@, watermark);
        if recs.len() == 0 {
            lemma_finished_seed(ms, cps.drop_last(), watermark);
            assert forall|i: int| 0 <= i < cps.len() implies seed_of(ms, (#[trigger] cps[i]).table_name@)
                == checkpoint_records(cps[i].kind, cps[i].seed@, cps[i].writes@, watermark) by {
                if i < cps.len() - 1 {
                    assert(cps[i] == cps.drop_last()[i]);
                } else {
                    assert(forall|j: int| 0 <= j < cps.len() - 1 ==> (#[trigger] cps.drop_last()[j]).table_name@ != c.table_name@);
                }
            }
            assert forall|i: int| 0 <= i < ms.len() implies exists|j: int| 0 <= j < cps.len() && (#[trigger] ms[i]).epoch == cps[j].epoch by {
                let j = choose|j: int| 0 <= j < cps.len() - 1 && ms[i].epoch == cps.drop_last()[j].epoch;
                assert(cps[j] == cps.drop_last()[j]);
            }
        } else {
            lemma_finished_seed(ms.drop_last(), cps.drop_last(), watermark);
            assert forall|i: int| 0 <= i < cps.len() implies seed_of(ms, (#[trigger] cps[i]).table_name@)
                == checkpoint_records(cps[i].kind, cps[i].seed@, cps[i].writes@, watermark) by {
                if i < cps.len() - 1 {
                    assert(cps[i] == cps.drop_last()[i]);
                    assert(cps[i].table_name@ != c.table_name@);
                }
            }
            assert forall|n: Seq<char>| (forall|i: int| 0 <= i < cps.len() ==> (#[trigger] cps[i]).table_name@ != n)
                implies seed_of(ms, n) == Seq::<Record>::empty() by {
                assert(c.table_name@ != n);
                assert(ms.last().table_name@ != n);
                assert forall|i: int| 0 <= i < cps.drop_last().len() implies (#[trigger] cps.drop_last()[i]).table_name@ != n by {
                    assert(cps.drop_last()[i] == cps[i]);
                }
                assert(seed_of(ms.drop_last(), n) == Seq::<Record>::empty());
                assert(seed_of(ms, n) == seed_of(ms.drop_last(), n));
            }
            assert forall|i: int| 0 <= i < ms.len() implies exists|j: int| 0 <= j < cps.len() && (#[trigger] ms[i]).epoch == cps[j].epoch by {
                if i < ms.len() - 1 {
                    let j = choose|j: int| 0 <= j < cps.len() - 1 && ms.drop_last()[i].epoch == cps.drop_last()[j].epoch;
                    assert(cps[j] == cps.drop_last()[j]);
                } else {
                    assert(ms[i].epoch == cps[cps.len() - 1].epoch);
                }
            }
        }
    }
}

/// A checkpoint marker is finalized against exactly the writes enqueued before it: once
/// a flusher finishes its checkpointers, each table's pending checkpoint holds what its
/// last completed checkpoint held together with every write routed to it since the
/// previous marker, in order, and nothing else. Writes that arrive later go to the next
/// epoch, whose log `step` starts empty.
pub proof fn lemma_checkpoint_reflects_prior_writes(f: BackendFlusher, ms: Seq<TableCheckpointMetadata>, watermark: Option<u64>)
    requires
        f.wf(),
        finished_all(ms, f.checkpointers@, watermark),
    ensures
        forall|i: int| 0 <= i < f.tables@.len() ==> seed_of(ms, (#[trigger] f.tables@[i]).name@) == checkpoint_records(
            f.tables@[i].kind,
            seed_of(f.last_epoch_checkpoints@, f.tables@[i].name@),
            routed(f.epoch_writes@, f.tables@[i].name@),
            watermark,
        ),
{
    assert forall|i: int, j: int| 0 <= i < j < f.checkpointers@.len() implies
        f.checkpointers@[i].table_name@ != f.checkpointers@[j].table_name@ by {
        assert(f.checkpointers@[i].table_name == f.tables@[i].name);
        assert(f.checkpointers@[j].table_name == f.tables@[j].name);
    }
    lemma_finished_seed(ms, f.checkpointers@, watermark);
    assert forall|i: int| 0 <= i < f.tables@.len() implies seed_of(ms, (#[trigger] f.tables@[i]).name@) == checkpoint_records(
        f.tables@[i].kind,
        seed_of(f.last_epoch_checkpoints@, f.tables@[i].name@),
        routed(f.epoch_writes@, f.tables@[i].name@),
        watermark,
    ) by {
        assert(f.checkpointers@[i].table_name == f.tables@[i].name);
    }
}

/// Every table checkpoint that a marker produces carries the flusher's current epoch,
/// which each completed non-stopping checkpoint raises by exactly one (see `step`).
pub proof fn lemma_checkpoint_epoch(f: BackendFlusher, ms: Seq<TableCheckpointMetadata>, watermark: Option<u64>)
    requires
        f.wf(),
        finished_all(ms, f.checkpointers@, watermark),
    ensures
        forall|i: int| 0 <= i < ms.len() ==> (#[trigger] ms[i]).epoch == f.current_epoch,
{
    assert forall|i: int, j: int| 0 <= i < j < f.checkpointers@.len() implies
        f.checkpointers@[i].table_name@ != f.checkpointers@[j].table_name@ by {
        assert(f.checkpointers@[i].table_name == f.tables@[i].name);
        assert(f.checkpointers@[j].table_name == f.tables@[j].name);
    }
    lemma_finished_seed(ms, f.checkpointers@, watermark);
    assert forall|i: int| 0 <= i < ms.len() implies (#[trigger] ms[i]).epoch == f.current_epoch by {
        let j = choose|j: int| 0 <= j < f.checkpointers@.len() && ms[i].epoch == f.checkpointers@[j].epoch;
    }
}

/// Round trip: after a marker, the checkpoint of a global keyed table whose last write
/// since the previous marker put `key → value` reads `value` under `key`. These records are
/// what a manager restored from that checkpoint gives the table (`TableManager::new`,
/// `OperatorCheckpointMetadata::from_subtask`), and what its reads look up.
pub proof fn lemma_round_trip(f: BackendFlusher, ms: Seq<TableCheckpointMetadata>, watermark: Option<u64>, i: int)
    requires
        f.wf(),
        finished_all(ms, f.checkpointers@, watermark),
        0 <= i < f.tables@.len(),
        f.tables@[i].kind == TableKind::GlobalKeyValue,
        routed(f.epoch_writes@, f.tables@[i].name@).len() > 0,
    ensures
        ({
            let w = routed(f.epoch_writes@, f.tables@[i].name@);
            lookup(seed_of(ms, f.tables@[i].name@), w.last().key@) == Some(w.last().value)
        }),
{
    lemma_checkpoint_reflects_prior_writes(f, ms, watermark);
    let name = f.tables@[i].name@;
    let seed = seed_of(f.last_epoch_checkpoints@, name);
    let w = routed(f.epoch_writes@, name);
    assert(seed_of(ms, name) == seed + w);
    assert((seed + w).last() == w.last());
}

/// A non-stopping checkpoint completed from flusher `before`, leaving `after`: the report
/// carries `before`'s epoch and `after` works on the next one.
pub open spec fn completion_step(before: BackendFlusher, after: BackendFlusher, c: CheckpointCompleted) -> bool {
    &&& c.checkpoint_epoch == before.current_epoch
    &&& after.current_epoch == before.current_epoch + 1
}

/// Epoch monotonicity: successive non-stopping checkpoints report epochs `e, e + 1, ...`,
/// strictly increasing with no gaps. `fs[k]` is the flusher as checkpoint `k` completes
/// and `fs[k + 1]` the one it leaves; `step` relates them by `completion_step`, and every
/// other step between two completions keeps the epoch.
pub proof fn lemma_epochs_consecutive(fs: Seq<BackendFlusher>, cs: Seq<CheckpointCompleted>)
    requires
        fs.len() == cs.len() + 1,
        forall|k: int| 0 <= k < cs.len() ==> completion_step(fs[k], fs[k + 1], #[trigger] cs[k]),
    ensures
        forall|k: int| 0 <= k < cs.len() ==> (#[trigger] cs[k]).checkpoint_epoch == fs[0].current_epoch + k,
        forall|k: int, l: int| 0 <= k < l < cs.len() ==> cs[k].checkpoint_epoch < cs[l].checkpoint_epoch,
    decreases cs.len(),
{
    if cs.len() > 0 {
        let n = cs.len() - 1;
        lemma_epochs_consecutive(fs.drop_last(), cs.drop_last());
        assert forall|k: int| 0 <= k < cs.len() implies (#[trigger] cs[k]).checkpoint_epoch == fs[0].current_epoch + k by {
            if k < n {
                assert(cs[k] == cs.drop_last()[k]);
            } else {
                assert(completion_step(fs[n - 1 + 1], fs[n + 1], cs[n]));
                if n > 0 {
                    assert(cs.drop_last()[n - 1] == cs[n - 1]);
                    assert(completion_step(fs[n - 1], fs[n], cs[n - 1]));
                }
            }
        }
    }
}

/// Two markers in a row: the first checkpoint holds the last one's records with the
/// writes of the first epoch; the second, from the flusher that the first completion left
/// (its seeds are the first checkpoint), holds those records followed by the writes of the
/// second epoch only. No write of either epoch lands in the other's delta.
pub proof fn lemma_two_checkpoints_compose(
    f1: BackendFlusher,
    ms1: Seq<TableCheckpointMetadata>,
    wm1: Option<u64>,
    f2: BackendFlusher,
    ms2: Seq<TableCheckpointMetadata>,
    wm2: Option<u64>,
    i: int,
)
    requires
        f1.wf(),
        f2.wf(),
        f2.tables@ == f1.tables@,
        finished_all(ms1, f1.checkpointers@, wm1),
        same_tables(f2.last_epoch_checkpoints@, ms1),
        finished_all(ms2, f2.checkpointers@, wm2),
        0 <= i < f1.tables@.len(),
    ensures
        ({
            let t = f1.tables@[i];
            let first = checkpoint_records(t.kind, seed_of(f1.last_epoch_checkpoints@, t.name@), routed(f1.epoch_writes@, t.name@), wm1);
            &&& seed_of(ms1, t.name@) == first
            &&& seed_of(ms2, t.name@) == checkpoint_records(t.kind, first, routed(f2.epoch_writes@, t.name@), wm2)
        }),
{
    lemma_checkpoint_reflects_prior_writes(f1, ms1, wm1);
    lemma_checkpoint_reflects_prior_writes(f2, ms2, wm2);
    lemma_same_tables_seed(f2.last_epoch_checkpoints@, ms1, f1.tables@[i].name@);
    assert(f2.tables@[i] == f1.tables@[i]);
}

} // verus!
