use vstd::prelude::*;
use crate::record::{Record, live_records, lookup, lookup_live, lemma_live_records_lookup};
use crate::table::{
    Table, TableConfig, TableKind, checkpoint_records, TableCheckpointMetadata, StateError, ViewType, GlobalKeyedView,
    ExpiringTimeKeyView, later_watermark,
};
use crate::flusher::{
    routed, finished_all, lemma_checkpoint_reflects_prior_writes,
    BackendFlusher, CheckpointMessage, StateMessage, SubtaskCheckpointMetadata, TaskInfo,
    distinct_names, has_table, seed_of, entry_of, lemma_seed_of_entry, same_tables, lemma_same_tables_seed, find_table, find_table_metadata, duplicate_tables,
};

verus! {

/// The barrier that reaches a task and closes an epoch.
#[derive(Clone, Copy, Debug, PartialEq, Eq, Structural)]
pub struct CheckpointBarrier {
    pub epoch: u32,
    pub timestamp: u64,
    pub then_stop: bool,
}

/// An operator's checkpoint as read back on restore: table name to table checkpoint.
#[derive(Debug)]
pub struct OperatorCheckpointMetadata {
    pub epoch: u32,
    pub table_checkpoint_metadata: Vec<TableCheckpointMetadata>,
}

impl OperatorCheckpointMetadata {
    /// The operator checkpoint of epoch `epoch` made of one task's result.
    pub fn from_subtask(epoch: u32, subtask: &SubtaskCheckpointMetadata) -> (r: OperatorCheckpointMetadata)
        ensures
            r.epoch == epoch,
            same_tables(r.table_checkpoint_metadata@, subtask.table_metadata@),
            forall|name: Seq<char>| #[trigger] seed_of(r.table_checkpoint_metadata@, name)
                == seed_of(subtask.table_metadata@, name),
    {
        let tables = duplicate_tables(&subtask.table_metadata);
        proof {
            assert forall|name: Seq<char>| #[trigger] seed_of(tables@, name) == seed_of(subtask.table_metadata@, name) by {
                lemma_same_tables_seed(tables@, subtask.table_metadata@, name);
            }
        }
        OperatorCheckpointMetadata { epoch, table_checkpoint_metadata: tables }
    }
}

/// The task's end of the state channel: messages wait here, in order, until the runner
/// sends them on.
#[derive(Debug)]
pub struct BackendWriter {
    pub pending: Vec<StateMessage>,
    /// A stopping checkpoint was sent; the runner waits for the flusher's final signal.
    pub stopping: bool,
}

impl BackendWriter {
    /// Hands over every waiting message, oldest first.
    pub fn take_pending(&mut self) -> (r: Vec<StateMessage>)
        ensures
            r == old(self).pending,
            final(self).pending@.len() == 0,
            final(self).stopping == old(self).stopping,
    {
        let mut out: Vec<StateMessage> = Vec::new();
        core::mem::swap(&mut self.pending, &mut out);
        out
    }
}

/// A cached view, of one kind or the other.
#[derive(Debug)]
pub enum CachedView {
    Global(GlobalKeyedView),
    Expiring(ExpiringTimeKeyView),
}

/// The position of the last table named `name`, or -1.
pub open spec fn index_of(ts: Seq<Table>, name: Seq<char>) -> int
    decreases ts.len(),
{
    if ts.len() == 0 {
        -1
    } else if ts.last().config.name@ == name {
        ts.len() - 1
    } else {
        index_of(ts.drop_last(), name)
    }
}

pub proof fn lemma_index_of_bounds(ts: Seq<Table>, name: Seq<char>)
    ensures
        -1 <= index_of(ts, name) < ts.len(),
        index_of(ts, name) >= 0 ==> ts[index_of(ts, name)].config.name@ == name,
        index_of(ts, name) == -1 <==> forall|i: int| 0 <= i < ts.len() ==> ts[i].config.name@ != name,
    decreases ts.len(),
{
    if ts.len() > 0 {
        lemma_index_of_bounds(ts.drop_last(), name);
        if ts.last().config.name@ != name {
            assert forall|i: int| 0 <= i < ts.len() - 1 implies ts[i].config.name@ != name <==> ts.drop_last()[i].config.name@ != name by {}
        }
    }
}

/// The records a restore gives table `name`.
pub open spec fn restored_records(md: Option<OperatorCheckpointMetadata>, name: Seq<char>) -> Seq<Record> {
    match md {
        Some(m) => seed_of(m.table_checkpoint_metadata@, name),
        None => Seq::empty(),
    }
}

/// The checkpoint a restore reads for table `name`.
pub open spec fn restored_entry(md: Option<OperatorCheckpointMetadata>, name: Seq<char>) -> Option<TableCheckpointMetadata> {
    match md {
        Some(m) => entry_of(m.table_checkpoint_metadata@, name),
        None => None,
    }
}

/// What the flusher of a restored task is seeded with for table `name`: nothing when the
/// restored checkpoint holds no records for it, else that checkpoint as the per-table
/// recovery gives it, with its own epoch and every record already durable.
pub open spec fn seeded_from_restore(seeds: Seq<TableCheckpointMetadata>, md: Option<OperatorCheckpointMetadata>, name: String) -> bool {
    match entry_of(seeds, name@) {
        None => restored_records(md, name@).len() == 0,
        Some(e) => restored_entry(md, name@) matches Some(p) && p.records@.len() > 0
            && e.table_name == name && e.records@ == p.records@ && e.epoch == p.epoch
            && e.delta_start == p.records@.len(),
    }
}

/// Every declaration names a kind, and no name is declared twice.
pub open spec fn configs_ok(cs: Seq<TableConfig>) -> bool {
    &&& distinct_names(cs)
    &&& forall|i: int| 0 <= i < cs.len() ==> #[trigger] cs[i].kind != TableKind::MissingTableType
}

/// Every table that the restored checkpoint names is declared.
pub open spec fn metadata_ok(cs: Seq<TableConfig>, md: Option<OperatorCheckpointMetadata>) -> bool {
    match md {
        Some(m) => forall|k: int| 0 <= k < m.table_checkpoint_metadata@.len()
            ==> has_table(cs, #[trigger] m.table_checkpoint_metadata@[k].table_name@),
        None => true,
    }
}

/// The per-task registry of tables, with a cache of views and the writer end of the
/// state channel.
#[derive(Debug)]
pub struct TableManager {
    pub epoch: u32,
    pub min_epoch: u32,
    pub task_info: TaskInfo,
    pub tables: Vec<Table>,
    pub writer: BackendWriter,
    /// One slot per table, in the order of `tables`, filled on first access.
    pub caches: Vec<Option<CachedView>>,
}

impl TableManager {
    pub open spec fn wf(&self) -> bool {
        &&& self.caches@.len() == self.tables@.len()
        &&& forall|i: int, j: int| 0 <= i < j < self.tables@.len() ==>
            self.tables@[i].config.name@ != self.tables@[j].config.name@
        &&& forall|i: int| 0 <= i < self.tables@.len() ==> match #[trigger] self.caches@[i] {
            Some(CachedView::Global(v)) => self.tables@[i].config.kind == TableKind::GlobalKeyValue
                && v.table_name == self.tables@[i].config.name,
            Some(CachedView::Expiring(v)) => self.tables@[i].config.kind
                == (TableKind::ExpiringKeyedTimeTable { retention: v.retention })
                && v.table_name == self.tables@[i].config.name,
            None => true,
        }
    }

    /// The position of table `name`, or -1.
    pub open spec fn slot(&self, name: Seq<char>) -> int {
        index_of(self.tables@, name)
    }

    /// The records that make up table `i` now: its view's, or the restored ones while
    /// no view exists.
    pub open spec fn records_at(&self, i: int) -> Seq<Record> {
        match self.caches@[i] {
            Some(CachedView::Global(v)) => v.records@,
            Some(CachedView::Expiring(v)) => v.records@,
            None => self.tables@[i].restored@,
        }
    }

    /// Builds every declared table, restoring each from `checkpoint_metadata` when given,
    /// and the flusher that will checkpoint them. A fresh task starts at epoch 1; a
    /// restored one just after the restored epoch.
    pub fn new(
        task_info: TaskInfo,
        table_configs: Vec<TableConfig>,
        checkpoint_metadata: Option<OperatorCheckpointMetadata>,
    ) -> (r: Result<(TableManager, BackendFlusher), StateError>)
        requires
            checkpoint_metadata matches Some(m) ==> m.epoch < u32::MAX,
        ensures
            r is Ok <==> configs_ok(table_configs@) && metadata_ok(table_configs@, checkpoint_metadata),
            r matches Err(StateError::MissingTableType(n)) ==> exists|i: int| 0 <= i < table_configs@.len()
                && table_configs@[i].name == n && table_configs@[i].kind == TableKind::MissingTableType,
            r matches Err(StateError::DuplicateTable(n)) ==> exists|i: int, j: int| 0 <= i < j < table_configs@.len()
                && table_configs@[i].name@ == n@ && table_configs@[j].name@ == n@,
            r matches Err(StateError::UnknownTable(n)) ==> !has_table(table_configs@, n@) && match checkpoint_metadata {
                Some(m) => exists|k: int| 0 <= k < m.table_checkpoint_metadata@.len()
                    && #[trigger] m.table_checkpoint_metadata@[k].table_name == n,
                None => false,
            },
            r matches Err(e) ==> e is MissingTableType || e is DuplicateTable || e is UnknownTable,
            r matches Err(e) ==> (e is UnknownTable <==> configs_ok(table_configs@)),
            r matches Ok((tm, fl)) ==> {
                &&& tm.wf()
                &&& fl.wf()
                &&& tm.task_info == task_info
                &&& fl.task_info == task_info
                &&& tm.epoch == match checkpoint_metadata { Some(m) => (m.epoch + 1) as u32, None => 1u32 }
                &&& tm.min_epoch == match checkpoint_metadata { Some(m) => m.epoch, None => 1u32 }
                &&& fl.current_epoch == tm.epoch
                &&& fl.phase is Accumulating
                &&& fl.epoch_writes@.len() == 0
                &&& fl.tables@ == table_configs@
                &&& tm.tables@.len() == table_configs@.len()
                &&& tm.writer.pending@.len() == 0
                &&& !tm.writer.stopping
                &&& forall|i: int| 0 <= i < table_configs@.len() ==> {
                    &&& (#[trigger] tm.tables@[i]).config == table_configs@[i]
                    &&& tm.tables@[i].restored@ == restored_records(checkpoint_metadata, table_configs@[i].name@)
                    &&& tm.caches@[i] is None
                    &&& seed_of(fl.last_epoch_checkpoints@, table_configs@[i].name@)
                        == restored_records(checkpoint_metadata, table_configs@[i].name@)
                    &&& seeded_from_restore(fl.last_epoch_checkpoints@, checkpoint_metadata, table_configs@[i].name)
                }
                &&& forall|k: int| 0 <= k < fl.last_epoch_checkpoints@.len()
                    ==> has_table(table_configs@, #[trigger] fl.last_epoch_checkpoints@[k].table_name@)
            },
    {
        let mut tables: Vec<Table> = Vec::new();
        let mut configs: Vec<TableConfig> = Vec::new();
        let mut i: usize = 0;
        while i < table_configs.len()
            invariant
                i <= table_configs.len(),
                tables@.len() == i,
                configs@ == table_configs@.take(i as int),
                configs_ok(configs@),
                forall|j: int| 0 <= j < i ==> {
                    &&& (#[trigger] tables@[j]).config == table_configs@[j]
                    &&& tables@[j].restored@ == restored_records(checkpoint_metadata, table_configs@[j].name@)
                },
            decreases table_configs.len() - i,
        {
            let config = table_configs[i].duplicate();
            if let Some(k) = find_table(&configs, &config.name) {
                proof {
                    assert(configs@[k as int] == table_configs@[k as int]);
                    assert(table_configs@[k as int].name@ == table_configs@[i as int].name@);
                    assert(!distinct_names(table_configs@));
                }
                return Err(StateError::DuplicateTable(config.name));
            }
            let restore_from = match &checkpoint_metadata {
                Some(m) => match find_table_metadata(&m.table_checkpoint_metadata, &config.name) {
                    Some(k) => Some(&m.table_checkpoint_metadata[k]),
                    None => None,
                },
                None => None,
            };
            proof {
                if restore_from is None {
                    assert(restored_records(checkpoint_metadata, config.name@) =~= Seq::<Record>::empty());
                }
            }
            let table = match Table::from_config(config.duplicate(), restore_from) {
                Ok(t) => t,
                Err(e) => {
                    proof {
                        assert(table_configs@[i as int].kind == TableKind::MissingTableType);
                    }
                    return Err(e);
                },
            };
            configs.push(config);
            tables.push(table);
            proof {
                assert(configs@ =~= table_configs@.take(i + 1));
            }
            i = i + 1;
        }
        proof {
            assert(configs@ =~= table_configs@);
        }
        let (epoch, min_epoch) = match &checkpoint_metadata {
            Some(m) => (m.epoch + 1, m.epoch),
            None => (1u32, 1u32),
        };
        if let Some(m) = &checkpoint_metadata {
            let mut k: usize = 0;
            while k < m.table_checkpoint_metadata.len()
                invariant
                    k <= m.table_checkpoint_metadata.len(),
                    checkpoint_metadata == Some(*m),
                    configs@ == table_configs@,
                    configs_ok(table_configs@),
                    forall|q: int| 0 <= q < k ==> has_table(table_configs@, #[trigger] m.table_checkpoint_metadata@[q].table_name@),
                decreases m.table_checkpoint_metadata.len() - k,
            {
                if find_table(&configs, &m.table_checkpoint_metadata[k].table_name).is_none() {
                    proof {
                        assert(!has_table(table_configs@, m.table_checkpoint_metadata@[k as int].table_name@));
                        let ghost kk = k as int;
                        if metadata_ok(table_configs@, checkpoint_metadata) {
                            let ghost mm = checkpoint_metadata->0;
                            assert(mm == *m);
                            assert(0 <= kk < mm.table_checkpoint_metadata@.len());
                            assert(has_table(table_configs@, mm.table_checkpoint_metadata@[kk].table_name@));
                        }
                        assert(!metadata_ok(table_configs@, checkpoint_metadata));
                    }
                    return Err(StateError::UnknownTable(m.table_checkpoint_metadata[k].table_name.clone()));
                }
                k = k + 1;
            }
        }
        let mut seeds: Vec<TableCheckpointMetadata> = Vec::new();
        let mut i: usize = 0;
        while i < tables.len()
            invariant
                i <= tables.len(),
                tables@.len() == table_configs@.len(),
                configs_ok(table_configs@),
                forall|j: int| 0 <= j < tables@.len() ==> {
                    &&& (#[trigger] tables@[j]).config == table_configs@[j]
                    &&& tables@[j].restored@ == restored_records(checkpoint_metadata, table_configs@[j].name@)
                },
                forall|j: int| 0 <= j < i ==> seed_of(seeds@, #[trigger] table_configs@[j].name@) == tables@[j].restored@,
                forall|j: int| 0 <= j < i ==> seeded_from_restore(seeds@, checkpoint_metadata, #[trigger] table_configs@[j].name),
                forall|n: Seq<char>| (forall|j: int| 0 <= j < i ==> #[trigger] table_configs@[j].name@ != n)
                    ==> #[trigger] entry_of(seeds@, n) is None,
                forall|k: int| 0 <= k < seeds@.len() ==> exists|j: int| 0 <= j < i
                    && (#[trigger] seeds@[k]).table_name@ == table_configs@[j].name@,
            decreases tables.len() - i,
        {
            let ghost before = seeds@;
            let ghost name = table_configs@[i as int].name;
            let mut pushed = false;
            if let Some(m) = &checkpoint_metadata {
                if let Some(k) = find_table_metadata(&m.table_checkpoint_metadata, &tables[i].config.name) {
                    if let Some(meta) = tables[i].subtask_metadata_from_table(&m.table_checkpoint_metadata[k]) {
                        seeds.push(meta);
                        pushed = true;
                        proof {
                            assert(seeds@.drop_last() =~= before);
                            assert(seeds@.last().table_name@ == name@);
                        }
                    }
                }
            }
            proof {
                assert(!pushed ==> seeds@ == before);
                assert(pushed ==> seeds@.drop_last() == before && seeds@.len() > 0 && seeds@.last().table_name@ == name@);
                lemma_seed_of_entry(seeds@, name@);
                if checkpoint_metadata is Some {
                    lemma_seed_of_entry(checkpoint_metadata->0.table_checkpoint_metadata@, name@);
                }
                if !pushed {
                    assert(seeds@ == before);
                    assert(tables@[i as int].restored@.len() == 0);
                }
                assert forall|j: int| 0 <= j < i + 1 implies seed_of(seeds@, #[trigger] table_configs@[j].name@) == tables@[j].restored@ by {
                    if j < i {
                        assert(table_configs@[j].name@ != table_configs@[i as int].name@);
                    }
                }
                assert forall|j: int| 0 <= j < i + 1 implies seeded_from_restore(seeds@, checkpoint_metadata, #[trigger] table_configs@[j].name) by {
                    if j < i {
                        assert(table_configs@[j].name@ != table_configs@[i as int].name@);
                        assert(entry_of(seeds@, table_configs@[j].name@) == entry_of(before, table_configs@[j].name@));
                    }
                }
                assert forall|n: Seq<char>| (forall|j: int| 0 <= j < i + 1 ==> #[trigger] table_configs@[j].name@ != n)
                    implies #[trigger] entry_of(seeds@, n) is None by {
                    assert(table_configs@[i as int].name@ != n);
                    assert(forall|j: int| 0 <= j < i ==> #[trigger] table_configs@[j].name@ != n);
                    assert(entry_of(before, n) is None);
                    if pushed {
                        assert(seeds@.last().table_name@ != n);
                    }
                }
                assert forall|k: int| 0 <= k < seeds@.len() implies exists|j: int| 0 <= j < i + 1
                    && (#[trigger] seeds@[k]).table_name@ == table_configs@[j].name@ by {
                    if k < before.len() {
                        assert(seeds@[k] == before[k]);
                        let j = choose|j: int| 0 <= j < i && before[k].table_name@ == table_configs@[j].name@;
                    } else {
                        assert(seeds@[k].table_name@ == table_configs@[i as int].name@);
                    }
                }
            }
            i = i + 1;
        }
        proof {
            assert forall|k: int| 0 <= k < seeds@.len()
                implies has_table(table_configs@, #[trigger] seeds@[k].table_name@) by {
                let j = choose|j: int| 0 <= j < tables@.len() && seeds@[k].table_name@ == table_configs@[j].name@;
            }
        }
        let flusher = BackendFlusher::new(task_info.duplicate(), configs, epoch, seeds);
        let mut caches: Vec<Option<CachedView>> = Vec::new();
        let mut i: usize = 0;
        while i < tables.len()
            invariant
                i <= tables.len(),
                caches@.len() == i,
                forall|j: int| 0 <= j < i ==> (#[trigger] caches@[j]) is None,
            decreases tables.len() - i,
        {
            caches.push(None);
            i = i + 1;
        }
        let tm = TableManager {
            epoch,
            min_epoch,
            task_info,
            tables,
            writer: BackendWriter { pending: Vec::new(), stopping: false },
            caches,
        };
        Ok((tm, flusher))
    }

    /// What asking table `name` for a global keyed view typed `view_type` gives: the
    /// table's position, or the error.
    pub open spec fn global_outcome(&self, name: String, view_type: ViewType) -> Result<int, StateError> {
        let i = self.slot(name@);
        if i < 0 {
            Err(StateError::UnknownTable(name))
        } else if self.tables@[i].config.kind != TableKind::GlobalKeyValue {
            Err(StateError::WrongTableType(name))
        } else if self.caches@[i] matches Some(CachedView::Global(v)) && !v.view_type.same_as(&view_type) {
            Err(StateError::TypeMismatch(name))
        } else {
            Ok(i)
        }
    }

    /// What asking table `name` for an expiring view gives: the table's position, or the error.
    pub open spec fn expiring_outcome(&self, name: String) -> Result<int, StateError> {
        let i = self.slot(name@);
        if i < 0 {
            Err(StateError::UnknownTable(name))
        } else if self.tables@[i].config.kind is ExpiringKeyedTimeTable {
            Ok(i)
        } else {
            Err(StateError::WrongTableType(name))
        }
    }

    /// Table `i` has a cached global keyed view typed `view_type`.
    pub open spec fn holds_global_view(&self, i: int, view_type: ViewType) -> bool {
        self.caches@[i] matches Some(CachedView::Global(v)) && v.view_type.same_as(&view_type)
    }

    /// Every cached view but that of table `i` is as in `other`.
    pub open spec fn other_views_kept(&self, other: &TableManager, i: int) -> bool {
        forall|j: int| 0 <= j < other.caches@.len() && j != i ==> #[trigger] self.caches@[j] == other.caches@[j]
    }

    /// The watermark the view of table `i` holds; none before the view exists.
    pub open spec fn watermark_at(&self, i: int) -> Option<u64> {
        match self.caches@[i] {
            Some(CachedView::Expiring(v)) => v.watermark,
            _ => None,
        }
    }

    /// The manager apart from its view cache and channel is as before.
    pub open spec fn same_registry(&self, other: &TableManager) -> bool {
        &&& self.tables == other.tables
        &&& self.epoch == other.epoch
        &&& self.min_epoch == other.min_epoch
        &&& self.task_info == other.task_info
        &&& self.caches@.len() == other.caches@.len()
    }

    /// The position of the table named `name`, as `index_of` gives it.
    fn find_slot(&self, name: &String) -> (r: Option<usize>)
        ensures
            match r {
                None => self.slot(name@) == -1,
                Some(i) => i as int == self.slot(name@),
            },
    {
        let mut i: usize = self.tables.len();
        assert(self.tables@.take(i as int) =~= self.tables@);
        while i > 0
            invariant
                i <= self.tables@.len(),
                index_of(self.tables@, name@) == index_of(self.tables@.take(i as int), name@),
            decreases i,
        {
            assert(self.tables@.take(i as int).drop_last() =~= self.tables@.take(i - 1));
            if self.tables[i - 1].config.name == *name {
                return Some(i - 1);
            }
            i = i - 1;
        }
        None
    }

    /// Looks up (or builds, on first access) the global keyed view of `table_name`,
    /// typed `view_type`, and returns the table's position.
    pub fn get_global_keyed_state(&mut self, table_name: &String, view_type: &ViewType) -> (r: Result<usize, StateError>)
        requires
            old(self).wf(),
        ensures
            final(self).wf(),
            final(self).same_registry(old(self)),
            final(self).writer == old(self).writer,
            match old(self).global_outcome(*table_name, *view_type) {
                Err(e) => r == Err::<usize, StateError>(e) && final(self).caches == old(self).caches,
                Ok(i) => {
                    &&& r matches Ok(k) && k as int == i
                    &&& final(self).caches@[i] matches Some(CachedView::Global(v))
                        && v.view_type.same_as(view_type) && v.records@ == old(self).records_at(i)
                    &&& forall|j: int| 0 <= j < old(self).caches@.len() && j != i
                        ==> #[trigger] final(self).caches@[j] == old(self).caches@[j]
                },
            },
    {
        proof {
            lemma_index_of_bounds(self.tables@, table_name@);
        }
        let i = match self.find_slot(table_name) {
            None => {
                return Err(StateError::UnknownTable(table_name.clone()));
            },
            Some(i) => i,
        };
        if self.tables[i].config.kind != TableKind::GlobalKeyValue {
            return Err(StateError::WrongTableType(table_name.clone()));
        }
        match &self.caches[i] {
            Some(CachedView::Global(v)) => {
                if !v.view_type.matches(view_type) {
                    return Err(StateError::TypeMismatch(table_name.clone()));
                }
                Ok(i)
            },
            Some(CachedView::Expiring(_)) => Err(StateError::WrongTableType(table_name.clone())),
            None => {
                let view = self.tables[i].global_view(view_type.duplicate());
                self.caches.set(i, Some(CachedView::Global(view)));
                Ok(i)
            },
        }
    }

    /// Reads `key` through the global keyed view of `table_name`.
    pub fn get_global(&mut self, table_name: &String, view_type: &ViewType, key: &String) -> (r: Result<Option<i64>, StateError>)
        requires
            old(self).wf(),
        ensures
            final(self).wf(),
            final(self).same_registry(old(self)),
            final(self).writer == old(self).writer,
            match old(self).global_outcome(*table_name, *view_type) {
                Err(e) => r == Err::<Option<i64>, StateError>(e) && final(self).caches == old(self).caches,
                Ok(i) => r == Ok::<Option<i64>, StateError>(lookup(old(self).records_at(i), key@))
                    && final(self).records_at(i) == old(self).records_at(i)
                    && final(self).holds_global_view(i, *view_type)
                    && final(self).other_views_kept(old(self), i),
            },
    {
        proof {
            lemma_index_of_bounds(self.tables@, table_name@);
        }
        let i = match self.get_global_keyed_state(table_name, view_type) {
            Ok(i) => i,
            Err(e) => {
                return Err(e);
            },
        };
        match &self.caches[i] {
            Some(CachedView::Global(v)) => Ok(v.get(key)),
            _ => Err(StateError::WrongTableType(table_name.clone())),
        }
    }

    /// Writes `key → value` through the global keyed view of `table_name`, in memory and
    /// onto the state channel.
    pub fn put_global(&mut self, table_name: &String, view_type: &ViewType, key: String, value: i64) -> (r: Result<(), StateError>)
        requires
            old(self).wf(),
        ensures
            final(self).wf(),
            final(self).same_registry(old(self)),
            final(self).writer.stopping == old(self).writer.stopping,
            match old(self).global_outcome(*table_name, *view_type) {
                Err(e) => r == Err::<(), StateError>(e) && final(self).writer.pending == old(self).writer.pending
                    && final(self).caches == old(self).caches,
                Ok(i) => {
                    &&& r is Ok
                    &&& final(self).holds_global_view(i, *view_type)
                    &&& final(self).records_at(i) == old(self).records_at(i).push(Record { key, time: 0, value })
                    &&& final(self).writer.pending@ == old(self).writer.pending@.push(
                        StateMessage::TableData { table: *table_name, data: Record { key, time: 0, value } })
                    &&& forall|k: Seq<char>| #[trigger] lookup(final(self).records_at(i), k)
                        == if k == key@ { Some(value) } else { lookup(old(self).records_at(i), k) }
                    &&& forall|j: int| 0 <= j < old(self).caches@.len() && j != i
                        ==> #[trigger] final(self).caches@[j] == old(self).caches@[j]
                },
            },
    {
        proof {
            lemma_index_of_bounds(self.tables@, table_name@);
        }
        let i = match self.get_global_keyed_state(table_name, view_type) {
            Ok(i) => i,
            Err(e) => {
                return Err(e);
            },
        };
        let mut slot: Option<CachedView> = None;
        core::mem::swap(&mut self.caches[i], &mut slot);
        match slot {
            Some(CachedView::Global(mut v)) => {
                let rec = v.put(key, value);
                self.caches.set(i, Some(CachedView::Global(v)));
                self.writer.pending.push(StateMessage::TableData { table: table_name.clone(), data: rec });
                proof {
                    assert(self.records_at(i as int).drop_last() =~= old(self).records_at(i as int));
                }
                Ok(())
            },
            other => {
                self.caches.set(i, other);
                Err(StateError::WrongTableType(table_name.clone()))
            },
        }
    }

    /// Looks up (or builds, on first access) the expiring view of `table_name`, moves its
    /// watermark forward to `watermark`, evicting what expired, and returns the table's
    /// position.
    pub fn get_expiring_time_key_table(&mut self, table_name: &String, watermark: Option<u64>) -> (r: Result<usize, StateError>)
        requires
            old(self).wf(),
        ensures
            final(self).wf(),
            final(self).same_registry(old(self)),
            final(self).writer == old(self).writer,
            match old(self).expiring_outcome(*table_name) {
                Err(e) => r == Err::<usize, StateError>(e) && final(self).caches == old(self).caches,
                Ok(i) => {
                    let retention = old(self).tables@[i].config.kind->retention;
                    let wm = later_watermark(old(self).watermark_at(i), watermark);
                    &&& r matches Ok(k) && k as int == i
                    &&& final(self).caches@[i] matches Some(CachedView::Expiring(v))
                        && v.retention == retention && v.watermark == wm
                        && v.records@ == live_records(old(self).records_at(i), retention, wm)
                    &&& forall|j: int| 0 <= j < old(self).caches@.len() && j != i
                        ==> #[trigger] final(self).caches@[j] == old(self).caches@[j]
                },
            },
    {
        proof {
            lemma_index_of_bounds(self.tables@, table_name@);
        }
        let i = match self.find_slot(table_name) {
            None => {
                return Err(StateError::UnknownTable(table_name.clone()));
            },
            Some(i) => i,
        };
        let retention = match self.tables[i].config.kind {
            TableKind::ExpiringKeyedTimeTable { retention } => retention,
            _ => {
                return Err(StateError::WrongTableType(table_name.clone()));
            },
        };
        let mut slot: Option<CachedView> = None;
        core::mem::swap(&mut self.caches[i], &mut slot);
        match slot {
            Some(CachedView::Expiring(mut v)) => {
                v.advance_watermark(watermark);
                self.caches.set(i, Some(CachedView::Expiring(v)));
                Ok(i)
            },
            Some(other) => {
                self.caches.set(i, Some(other));
                Err(StateError::WrongTableType(table_name.clone()))
            },
            None => {
                let view = self.tables[i].expiring_view(retention, watermark);
                self.caches.set(i, Some(CachedView::Expiring(view)));
                Ok(i)
            },
        }
    }

    /// Reads `key` through the expiring view of `table_name` under `watermark`.
    pub fn get_expiring(&mut self, table_name: &String, watermark: Option<u64>, key: &String) -> (r: Result<Option<i64>, StateError>)
        requires
            old(self).wf(),
        ensures
            final(self).wf(),
            final(self).same_registry(old(self)),
            final(self).writer == old(self).writer,
            match old(self).expiring_outcome(*table_name) {
                Err(e) => r == Err::<Option<i64>, StateError>(e) && final(self).caches == old(self).caches,
                Ok(i) => {
                    let retention = old(self).tables@[i].config.kind->retention;
                    let wm = later_watermark(old(self).watermark_at(i), watermark);
                    &&& r == Ok::<Option<i64>, StateError>(lookup_live(old(self).records_at(i), key@, retention, wm))
                    &&& final(self).caches@[i] matches Some(CachedView::Expiring(v))
                        && v.retention == retention && v.watermark == wm
                        && v.records@ == live_records(old(self).records_at(i), retention, wm)
                    &&& final(self).other_views_kept(old(self), i)
                },
            },
    {
        proof {
            lemma_index_of_bounds(self.tables@, table_name@);
        }
        let i = match self.get_expiring_time_key_table(table_name, watermark) {
            Ok(i) => i,
            Err(e) => {
                return Err(e);
            },
        };
        match &self.caches[i] {
            Some(CachedView::Expiring(v)) => {
                proof {
                    lemma_live_records_lookup(old(self).records_at(i as int), key@, v.retention, v.watermark);
                }
                Ok(v.get(key))
            },
            _ => Err(StateError::WrongTableType(table_name.clone())),
        }
    }

    /// Writes `key → value` stamped `time` through the expiring view of `table_name`
    /// under `watermark`, in memory and onto the state channel.
    pub fn insert_expiring(
        &mut self,
        table_name: &String,
        watermark: Option<u64>,
        key: String,
        time: u64,
        value: i64,
    ) -> (r: Result<(), StateError>)
        requires
            old(self).wf(),
        ensures
            final(self).wf(),
            final(self).same_registry(old(self)),
            final(self).writer.stopping == old(self).writer.stopping,
            match old(self).expiring_outcome(*table_name) {
                Err(e) => r == Err::<(), StateError>(e) && final(self).writer.pending == old(self).writer.pending
                    && final(self).caches == old(self).caches,
                Ok(i) => {
                    let retention = old(self).tables@[i].config.kind->retention;
                    let wm = later_watermark(old(self).watermark_at(i), watermark);
                    &&& r is Ok
                    &&& final(self).caches@[i] matches Some(CachedView::Expiring(v))
                        && v.retention == retention && v.watermark == wm
                    &&& final(self).other_views_kept(old(self), i)
                    &&& final(self).watermark_at(i) == wm
                    &&& final(self).records_at(i) == live_records(old(self).records_at(i), retention, wm).push(
                        Record { key, time, value })
                    &&& final(self).writer.pending@ == old(self).writer.pending@.push(
                        StateMessage::TableData { table: *table_name, data: Record { key, time, value } })
                },
            },
    {
        proof {
            lemma_index_of_bounds(self.tables@, table_name@);
        }
        let i = match self.get_expiring_time_key_table(table_name, watermark) {
            Ok(i) => i,
            Err(e) => {
                return Err(e);
            },
        };
        let mut slot: Option<CachedView> = None;
        core::mem::swap(&mut self.caches[i], &mut slot);
        match slot {
            Some(CachedView::Expiring(mut v)) => {
                let rec = v.insert(key, time, value);
                self.caches.set(i, Some(CachedView::Expiring(v)));
                self.writer.pending.push(StateMessage::TableData { table: table_name.clone(), data: rec });
                Ok(())
            },
            other => {
                self.caches.set(i, other);
                Err(StateError::WrongTableType(table_name.clone()))
            },
        }
    }

    /// Sends the checkpoint marker for `barrier` down the state channel, behind every write
    /// enqueued so far. A stopping barrier also marks the writer as stopping: the runner
    /// then waits for the flusher's final signal before it returns.
    pub fn checkpoint(&mut self, barrier: CheckpointBarrier, watermark: Option<u64>)
        requires
            old(self).wf(),
        ensures
            final(self).wf(),
            final(self).same_registry(old(self)),
            final(self).caches == old(self).caches,
            final(self).writer.pending@ == old(self).writer.pending@.push(StateMessage::Checkpoint(CheckpointMessage {
                epoch: barrier.epoch,
                time: barrier.timestamp,
                watermark,
                then_stop: barrier.then_stop,
            })),
            final(self).writer.stopping == (old(self).writer.stopping || barrier.then_stop),
    {
        self.writer.pending.push(StateMessage::Checkpoint(CheckpointMessage {
            epoch: barrier.epoch,
            time: barrier.timestamp,
            watermark,
            then_stop: barrier.then_stop,
        }));
        if barrier.then_stop {
            self.writer.stopping = true;
        }
    }
}

/// Round trip through a checkpoint: when the flusher has taken in exactly the writes the
/// manager enqueued for a global keyed table since the last marker (the manager's records
/// for the table are the flusher's seed followed by the writes routed to it), that table's
/// checkpoint at the next marker holds the manager's records, so it reads the same as the
/// manager's view for every key. A manager restored from it (`TableManager::new`) starts
/// from those records.
pub proof fn lemma_checkpoint_matches_view(
    tm: TableManager,
    i: int,
    f: BackendFlusher,
    j: int,
    ms: Seq<TableCheckpointMetadata>,
    watermark: Option<u64>,
)
    requires
        tm.wf(),
        f.wf(),
        0 <= i < tm.tables@.len(),
        0 <= j < f.tables@.len(),
        f.tables@[j].name@ == tm.tables@[i].config.name@,
        f.tables@[j].kind == TableKind::GlobalKeyValue,
        tm.records_at(i) == seed_of(f.last_epoch_checkpoints@, f.tables@[j].name@) + routed(f.epoch_writes@, f.tables@[j].name@),
        finished_all(ms, f.checkpointers@, watermark),
    ensures
        seed_of(ms, tm.tables@[i].config.name@) == tm.records_at(i),
        forall|k: Seq<char>| #[trigger] lookup(seed_of(ms, tm.tables@[i].config.name@), k) == lookup(tm.records_at(i), k),
{
    lemma_checkpoint_reflects_prior_writes(f, ms, watermark);
    assert(seed_of(ms, f.tables@[j].name@) == checkpoint_records(
        f.tables@[j].kind,
        seed_of(f.last_epoch_checkpoints@, f.tables@[j].name@),
        routed(f.epoch_writes@, f.tables@[j].name@),
        watermark,
    ));
}

} // verus!
