//! The multi-version hash map logger: its event model, the file each event
//! belongs in, and the logger state that decides which events are written.
//!
//! The logger does not touch files itself: every event it accepts is queued
//! as a [`LogRecord`] naming its file, and whoever owns the files writes the
//! queue out.

use vstd::prelude::*;
pub use crate::config::{
    level_rank, pairs_view, strings_view, opt_string_view, Incarnation, LogLevel, LoggingConfig,
    Moment, TxnIndex,
};
use crate::config::str_equal;

verus! {

/// The kinds of log file; each event kind belongs in exactly one of them.
#[derive(Debug, Clone, Copy, PartialEq, Eq, Structural, Hash)]
pub enum LogFileType {
    Execution,
    Concurrency,
    ReadWrite,
    Performance,
    Summary,
}

/// The name of the file of each kind.
pub open spec fn spec_filename(f: LogFileType) -> Seq<char> {
    match f {
        LogFileType::Execution => "block_stm_execution.log"@,
        LogFileType::Concurrency => "block_stm_concurrency.log"@,
        LogFileType::ReadWrite => "block_stm_readwrite.log"@,
        LogFileType::Performance => "block_stm_performance.log"@,
        LogFileType::Summary => "block_stm_summary.log"@,
    }
}

impl LogFileType {
    /// The name of the file of this kind.
    pub fn filename(&self) -> (r: &'static str)
        ensures
            r@ == spec_filename(*self),
    {
        match self {
            LogFileType::Execution => "block_stm_execution.log",
            LogFileType::Concurrency => "block_stm_concurrency.log",
            LogFileType::ReadWrite => "block_stm_readwrite.log",
            LogFileType::Performance => "block_stm_performance.log",
            LogFileType::Summary => "block_stm_summary.log",
        }
    }
}

/// The file kinds that an enabled logger opens, in order.
pub open spec fn all_file_types() -> Seq<LogFileType> {
    seq![
        LogFileType::Execution,
        LogFileType::Concurrency,
        LogFileType::ReadWrite,
        LogFileType::Performance,
        LogFileType::Summary,
    ]
}

/// The file kinds that an enabled logger opens, in order.
pub fn all_file_kinds() -> (r: Vec<LogFileType>)
    ensures
        r@ == all_file_types(),
{
    let r = vec![
        LogFileType::Execution,
        LogFileType::Concurrency,
        LogFileType::ReadWrite,
        LogFileType::Performance,
        LogFileType::Summary,
    ];
    assert(r@ =~= all_file_types());
    r
}

/// One event of the log, as the logger records it; a floating-point
/// quantity is held by its IEEE-754 bit pattern (field names ending in `_bits`).
pub enum LogEvent {
    TransactionStart {
        transaction_id: u32,
        incarnation: u32,
        thread_id: u64,
        timestamp: u64,
    },
    TransactionFinish {
        transaction_id: u32,
        incarnation: u32,
        thread_id: u64,
        timestamp: u64,
        execution_result: String,
        duration_us: u64,
        gas_used: u64,
        read_set_size: usize,
        write_set_size: usize,
    },
    TransactionAbort {
        transaction_id: u32,
        incarnation: u32,
        thread_id: u64,
        timestamp: u64,
        abort_reason: String,
        retry_count: u32,
        dependencies: Vec<u32>,
    },
    TransactionValidate {
        transaction_id: u32,
        thread_id: u64,
        timestamp: u64,
        validation_result: bool,
        duration_us: u64,
    },
    DependencyStall {
        transaction_id: u32,
        thread_id: u64,
        timestamp: u64,
        stalled_by: Vec<u32>,
    },
    DependencyUnstall {
        transaction_id: u32,
        thread_id: u64,
        timestamp: u64,
        unstalled_by: u32,
    },
    ReadWriteConflict {
        transaction_id: u32,
        conflicting_txn: u32,
        thread_id: u64,
        timestamp: u64,
        conflict_key: String,
        conflict_type: String,
    },
    ReadWriteSetChange {
        transaction_id: u32,
        incarnation: u32,
        thread_id: u64,
        timestamp: u64,
        read_keys: Vec<String>,
        write_keys: Vec<String>,
        resource_reads: usize,
        resource_writes: usize,
        module_reads: usize,
        module_writes: usize,
        delayed_field_reads: usize,
        delayed_field_writes: usize,
    },
    PerformanceMetric {
        timestamp: u64,
        metric_name: String,
        metric_value_bits: u64,
        transaction_id: Option<u32>,
        thread_id: u64,
        additional_data: Vec<(String, String)>,
    },
    MVHashMapRead {
        transaction_id: u32,
        incarnation: u32,
        thread_id: u64,
        timestamp: u64,
        state_key: String,
        read_result: String,
        version: Option<u32>,
    },
    MVHashMapWrite {
        transaction_id: u32,
        incarnation: u32,
        thread_id: u64,
        timestamp: u64,
        state_key: String,
        value_size: usize,
        write_type: String,
    },
    SchedulerStateTransition {
        timestamp: u64,
        thread_id: u64,
        old_state: String,
        new_state: String,
        transaction_id: Option<u32>,
        trigger_reason: String,
    },
    DependencyTracking {
        transaction_id: u32,
        incarnation: u32,
        thread_id: u64,
        timestamp: u64,
        dependency_type: String,
        dependent_txn: u32,
        state_key: String,
        action: String,
    },
    StallPropagation {
        timestamp: u64,
        thread_id: u64,
        owner_txn: u32,
        affected_txns: Vec<u32>,
        propagation_type: String,
        reason: String,
    },
    ExecutionStateTransition {
        transaction_id: u32,
        incarnation: u32,
        thread_id: u64,
        timestamp: u64,
        old_state: String,
        new_state: String,
        transition_reason: String,
        execution_phase: String,
    },
    BlockExecutionFlow {
        timestamp: u64,
        block_id: u64,
        flow_event: String,
        phase_name: String,
        transaction_count: usize,
        active_threads: usize,
        additional_info: Vec<(String, String)>,
    },
    TransactionMapping {
        timestamp: u64,
        transaction_id: u32,
        original_index: usize,
        block_id: u64,
        mapping_type: String,
        source_data: String,
        mapped_data: String,
    },
}

/// The mathematical value of a [`LogEvent`]: strings as character sequences.
pub ghost enum LogEventView {
    TransactionStart {
        transaction_id: u32,
        incarnation: u32,
        thread_id: u64,
        timestamp: u64,
    },
    TransactionFinish {
        transaction_id: u32,
        incarnation: u32,
        thread_id: u64,
        timestamp: u64,
        execution_result: Seq<char>,
        duration_us: u64,
        gas_used: u64,
        read_set_size: usize,
        write_set_size: usize,
    },
    TransactionAbort {
        transaction_id: u32,
        incarnation: u32,
        thread_id: u64,
        timestamp: u64,
        abort_reason: Seq<char>,
        retry_count: u32,
        dependencies: Seq<u32>,
    },
    TransactionValidate {
        transaction_id: u32,
        thread_id: u64,
        timestamp: u64,
        validation_result: bool,
        duration_us: u64,
    },
    DependencyStall {
        transaction_id: u32,
        thread_id: u64,
        timestamp: u64,
        stalled_by: Seq<u32>,
    },
    DependencyUnstall {
        transaction_id: u32,
        thread_id: u64,
        timestamp: u64,
        unstalled_by: u32,
    },
    ReadWriteConflict {
        transaction_id: u32,
        conflicting_txn: u32,
        thread_id: u64,
        timestamp: u64,
        conflict_key: Seq<char>,
        conflict_type: Seq<char>,
    },
    ReadWriteSetChange {
        transaction_id: u32,
        incarnation: u32,
        thread_id: u64,
        timestamp: u64,
        read_keys: Seq<Seq<char>>,
        write_keys: Seq<Seq<char>>,
        resource_reads: usize,
        resource_writes: usize,
        module_reads: usize,
        module_writes: usize,
        delayed_field_reads: usize,
        delayed_field_writes: usize,
    },
    PerformanceMetric {
        timestamp: u64,
        metric_name: Seq<char>,
        metric_value_bits: u64,
        transaction_id: Option<u32>,
        thread_id: u64,
        additional_data: Seq<(Seq<char>, Seq<char>)>,
    },
    MVHashMapRead {
        transaction_id: u32,
        incarnation: u32,
        thread_id: u64,
        timestamp: u64,
        state_key: Seq<char>,
        read_result: Seq<char>,
        version: Option<u32>,
    },
    MVHashMapWrite {
        transaction_id: u32,
        incarnation: u32,
        thread_id: u64,
        timestamp: u64,
        state_key: Seq<char>,
        value_size: usize,
        write_type: Seq<char>,
    },
    SchedulerStateTransition {
        timestamp: u64,
        thread_id: u64,
        old_state: Seq<char>,
        new_state: Seq<char>,
        transaction_id: Option<u32>,
        trigger_reason: Seq<char>,
    },
    DependencyTracking {
        transaction_id: u32,
        incarnation: u32,
        thread_id: u64,
        timestamp: u64,
        dependency_type: Seq<char>,
        dependent_txn: u32,
        state_key: Seq<char>,
        action: Seq<char>,
    },
    StallPropagation {
        timestamp: u64,
        thread_id: u64,
        owner_txn: u32,
        affected_txns: Seq<u32>,
        propagation_type: Seq<char>,
        reason: Seq<char>,
    },
    ExecutionStateTransition {
        transaction_id: u32,
        incarnation: u32,
        thread_id: u64,
        timestamp: u64,
        old_state: Seq<char>,
        new_state: Seq<char>,
        transition_reason: Seq<char>,
        execution_phase: Seq<char>,
    },
    BlockExecutionFlow {
        timestamp: u64,
        block_id: u64,
        flow_event: Seq<char>,
        phase_name: Seq<char>,
        transaction_count: usize,
        active_threads: usize,
        additional_info: Seq<(Seq<char>, Seq<char>)>,
    },
    TransactionMapping {
        timestamp: u64,
        transaction_id: u32,
        original_index: usize,
        block_id: u64,
        mapping_type: Seq<char>,
        source_data: Seq<char>,
        mapped_data: Seq<char>,
    },
}

impl View for LogEvent {
    type V = LogEventView;

    open spec fn view(&self) -> LogEventView {
        match self {
            LogEvent::TransactionStart { transaction_id, incarnation, thread_id, timestamp } => LogEventView::TransactionStart {
                transaction_id: *transaction_id,
                incarnation: *incarnation,
                thread_id: *thread_id,
                timestamp: *timestamp,
            },
            LogEvent::TransactionFinish { transaction_id, incarnation, thread_id, timestamp, execution_result, duration_us, gas_used, read_set_size, write_set_size } => LogEventView::TransactionFinish {
                transaction_id: *transaction_id,
                incarnation: *incarnation,
                thread_id: *thread_id,
                timestamp: *timestamp,
                execution_result: execution_result@,
                duration_us: *duration_us,
                gas_used: *gas_used,
                read_set_size: *read_set_size,
                write_set_size: *write_set_size,
            },
            LogEvent::TransactionAbort { transaction_id, incarnation, thread_id, timestamp, abort_reason, retry_count, dependencies } => LogEventView::TransactionAbort {
                transaction_id: *transaction_id,
                incarnation: *incarnation,
                thread_id: *thread_id,
                timestamp: *timestamp,
                abort_reason: abort_reason@,
                retry_count: *retry_count,
                dependencies: dependencies@,
            },
            LogEvent::TransactionValidate { transaction_id, thread_id, timestamp, validation_result, duration_us } => LogEventView::TransactionValidate {
                transaction_id: *transaction_id,
                thread_id: *thread_id,
                timestamp: *timestamp,
                validation_result: *validation_result,
                duration_us: *duration_us,
            },
            LogEvent::DependencyStall { transaction_id, thread_id, timestamp, stalled_by } => LogEventView::DependencyStall {
                transaction_id: *transaction_id,
                thread_id: *thread_id,
                timestamp: *timestamp,
                stalled_by: stalled_by@,
            },
            LogEvent::DependencyUnstall { transaction_id, thread_id, timestamp, unstalled_by } => LogEventView::DependencyUnstall {
                transaction_id: *transaction_id,
                thread_id: *thread_id,
                timestamp: *timestamp,
                unstalled_by: *unstalled_by,
            },
            LogEvent::ReadWriteConflict { transaction_id, conflicting_txn, thread_id, timestamp, conflict_key, conflict_type } => LogEventView::ReadWriteConflict {
                transaction_id: *transaction_id,
                conflicting_txn: *conflicting_txn,
                thread_id: *thread_id,
                timestamp: *timestamp,
                conflict_key: conflict_key@,
                conflict_type: conflict_type@,
            },
            LogEvent::ReadWriteSetChange { transaction_id, incarnation, thread_id, timestamp, read_keys, write_keys, resource_reads, resource_writes, module_reads, module_writes, delayed_field_reads, delayed_field_writes } => LogEventView::ReadWriteSetChange {
                transaction_id: *transaction_id,
                incarnation: *incarnation,
                thread_id: *thread_id,
                timestamp: *timestamp,
                read_keys: strings_view(read_keys@),
                write_keys: strings_view(write_keys@),
                resource_reads: *resource_reads,
                resource_writes: *resource_writes,
                module_reads: *module_reads,
                module_writes: *module_writes,
                delayed_field_reads: *delayed_field_reads,
                delayed_field_writes: *delayed_field_writes,
            },
            LogEvent::PerformanceMetric { timestamp, metric_name, metric_value_bits, transaction_id, thread_id, additional_data } => LogEventView::PerformanceMetric {
                timestamp: *timestamp,
                metric_name: metric_name@,
                metric_value_bits: *metric_value_bits,
                transaction_id: *transaction_id,
                thread_id: *thread_id,
                additional_data: pairs_view(additional_data@),
            },
            LogEvent::MVHashMapRead { transaction_id, incarnation, thread_id, timestamp, state_key, read_result, version } => LogEventView::MVHashMapRead {
                transaction_id: *transaction_id,
                incarnation: *incarnation,
                thread_id: *thread_id,
                timestamp: *timestamp,
                state_key: state_key@,
                read_result: read_result@,
                version: *version,
            },
            LogEvent::MVHashMapWrite { transaction_id, incarnation, thread_id, timestamp, state_key, value_size, write_type } => LogEventView::MVHashMapWrite {
                transaction_id: *transaction_id,
                incarnation: *incarnation,
                thread_id: *thread_id,
                timestamp: *timestamp,
                state_key: state_key@,
                value_size: *value_size,
                write_type: write_type@,
            },
            LogEvent::SchedulerStateTransition { timestamp, thread_id, old_state, new_state, transaction_id, trigger_reason } => LogEventView::SchedulerStateTransition {
                timestamp: *timestamp,
                thread_id: *thread_id,
                old_state: old_state@,
                new_state: new_state@,
                transaction_id: *transaction_id,
                trigger_reason: trigger_reason@,
            },
            LogEvent::DependencyTracking { transaction_id, incarnation, thread_id, timestamp, dependency_type, dependent_txn, state_key, action } => LogEventView::DependencyTracking {
                transaction_id: *transaction_id,
                incarnation: *incarnation,
                thread_id: *thread_id,
                timestamp: *timestamp,
                dependency_type: dependency_type@,
                dependent_txn: *dependent_txn,
                state_key: state_key@,
                action: action@,
            },
            LogEvent::StallPropagation { timestamp, thread_id, owner_txn, affected_txns, propagation_type, reason } => LogEventView::StallPropagation {
                timestamp: *timestamp,
                thread_id: *thread_id,
                owner_txn: *owner_txn,
                affected_txns: affected_txns@,
                propagation_type: propagation_type@,
                reason: reason@,
            },
            LogEvent::ExecutionStateTransition { transaction_id, incarnation, thread_id, timestamp, old_state, new_state, transition_reason, execution_phase } => LogEventView::ExecutionStateTransition {
                transaction_id: *transaction_id,
                incarnation: *incarnation,
                thread_id: *thread_id,
                timestamp: *timestamp,
                old_state: old_state@,
                new_state: new_state@,
                transition_reason: transition_reason@,
                execution_phase: execution_phase@,
            },
            LogEvent::BlockExecutionFlow { timestamp, block_id, flow_event, phase_name, transaction_count, active_threads, additional_info } => LogEventView::BlockExecutionFlow {
                timestamp: *timestamp,
                block_id: *block_id,
                flow_event: flow_event@,
                phase_name: phase_name@,
                transaction_count: *transaction_count,
                active_threads: *active_threads,
                additional_info: pairs_view(additional_info@),
            },
            LogEvent::TransactionMapping { timestamp, transaction_id, original_index, block_id, mapping_type, source_data, mapped_data } => LogEventView::TransactionMapping {
                timestamp: *timestamp,
                transaction_id: *transaction_id,
                original_index: *original_index,
                block_id: *block_id,
                mapping_type: mapping_type@,
                source_data: source_data@,
                mapped_data: mapped_data@,
            },
        }
    }
}

/// The file that an event belongs in.
pub open spec fn spec_route(e: LogEventView) -> LogFileType {
    match e {
        LogEventView::TransactionStart { .. }
        | LogEventView::TransactionFinish { .. }
        | LogEventView::ExecutionStateTransition { .. } => LogFileType::Execution,
        LogEventView::TransactionAbort { .. }
        | LogEventView::DependencyStall { .. }
        | LogEventView::DependencyUnstall { .. }
        | LogEventView::ReadWriteConflict { .. }
        | LogEventView::DependencyTracking { .. }
        | LogEventView::StallPropagation { .. }
        | LogEventView::SchedulerStateTransition { .. } => LogFileType::Concurrency,
        LogEventView::ReadWriteSetChange { .. }
        | LogEventView::MVHashMapRead { .. }
        | LogEventView::MVHashMapWrite { .. } => LogFileType::ReadWrite,
        LogEventView::PerformanceMetric { .. } => LogFileType::Performance,
        LogEventView::TransactionValidate { .. }
        | LogEventView::BlockExecutionFlow { .. }
        | LogEventView::TransactionMapping { .. } => LogFileType::Summary,
    }
}

impl LogEvent {
    /// The file that this event belongs in.
    pub fn route(&self) -> (f: LogFileType)
        ensures
            f == spec_route(self@),
    {
        match self {
            LogEvent::TransactionStart { .. }
            | LogEvent::TransactionFinish { .. }
            | LogEvent::ExecutionStateTransition { .. } => LogFileType::Execution,
            LogEvent::TransactionAbort { .. }
            | LogEvent::DependencyStall { .. }
            | LogEvent::DependencyUnstall { .. }
            | LogEvent::ReadWriteConflict { .. }
            | LogEvent::DependencyTracking { .. }
            | LogEvent::StallPropagation { .. }
            | LogEvent::SchedulerStateTransition { .. } => LogFileType::Concurrency,
            LogEvent::ReadWriteSetChange { .. }
            | LogEvent::MVHashMapRead { .. }
            | LogEvent::MVHashMapWrite { .. } => LogFileType::ReadWrite,
            LogEvent::PerformanceMetric { .. } => LogFileType::Performance,
            LogEvent::TransactionValidate { .. }
            | LogEvent::BlockExecutionFlow { .. }
            | LogEvent::TransactionMapping { .. } => LogFileType::Summary,
        }
    }
}

/// An event together with the file it is written to.
pub struct LogRecord {
    pub file: LogFileType,
    pub event: LogEvent,
}

impl View for LogRecord {
    type V = (LogFileType, LogEventView);

    open spec fn view(&self) -> (LogFileType, LogEventView) {
        (self.file, self.event@)
    }
}

/// The views of a sequence of records.
pub open spec fn records_view(v: Seq<LogRecord>) -> Seq<(LogFileType, LogEventView)> {
    v.map_values(|r: LogRecord| r@)
}

/// Error of the initialisation of the global logger.
pub enum InitError {
    /// Creating the log directory or opening the log files failed, with the
    /// error of that failure.
    Io(std::io::Error),
    /// A global logger was set up before.
    AlreadyExists(String),
}

/// Thread-safe logger for Block-STM events: its configuration, the files it
/// has open, and the records it has accepted and not yet handed out.
pub struct BlockSTMLogger {
    config: LoggingConfig,
    open_files: Vec<LogFileType>,
    pending: Vec<LogRecord>,
}

impl BlockSTMLogger {
    /// The configuration of the logger.
    pub closed spec fn config_view(&self) -> LoggingConfig {
        self.config
    }

    /// The kinds of file that the logger has open.
    pub closed spec fn open_files_view(&self) -> Seq<LogFileType> {
        self.open_files@
    }

    /// The records accepted and not yet handed out, oldest first.
    pub closed spec fn pending_view(&self) -> Seq<(LogFileType, LogEventView)> {
        records_view(self.pending@)
    }

    /// Whether an event of `level` that belongs in `file` is written.
    pub open spec fn accepts(&self, level: LogLevel, file: LogFileType) -> bool {
        &&& self.config_view().enabled
        &&& level_rank(level) >= level_rank(self.config_view().log_level)
        &&& self.open_files_view().contains(file)
    }

    /// What logging event `e` at `level` adds to the records.
    pub open spec fn emission(&self, e: LogEventView, level: LogLevel) -> Seq<
        (LogFileType, LogEventView),
    > {
        if self.accepts(level, spec_route(e)) {
            seq![(spec_route(e), e)]
        } else {
            Seq::empty()
        }
    }

    /// This logger is `pre` after logging `e` at `level`.
    pub open spec fn logged(&self, pre: &Self, e: LogEventView, level: LogLevel) -> bool {
        &&& self.config_view() == pre.config_view()
        &&& self.open_files_view() == pre.open_files_view()
        &&& self.pending_view() == pre.pending_view() + pre.emission(e, level)
    }

    /// This logger is `pre` unchanged.
    pub open spec fn unchanged(&self, pre: &Self) -> bool {
        &&& self.config_view() == pre.config_view()
        &&& self.open_files_view() == pre.open_files_view()
        &&& self.pending_view() == pre.pending_view()
    }

    /// Creates a logger with the given configuration; an enabled logger has
    /// every kind of file open, a disabled one none.
    pub fn new(config: LoggingConfig) -> (r: Self)
        ensures
            r.config_view() == config,
            r.open_files_view() == (if config.enabled {
                all_file_types()
            } else {
                Seq::empty()
            }),
            r.pending_view() == Seq::<(LogFileType, LogEventView)>::empty(),
    {
        let mut open_files: Vec<LogFileType> = Vec::new();
        if config.enabled {
            open_files = all_file_kinds();
        }
        let pending: Vec<LogRecord> = Vec::new();
        assert(records_view(pending@) =~= Seq::empty());
        BlockSTMLogger { config, open_files, pending }
    }

    /// The configuration of the logger.
    pub fn config(&self) -> (r: &LoggingConfig)
        ensures
            *r == self.config_view(),
    {
        &self.config
    }

    /// The kinds of file that the logger has open.
    pub fn open_files(&self) -> (r: &Vec<LogFileType>)
        ensures
            r@ == self.open_files_view(),
    {
        &self.open_files
    }

    /// Whether the logger has the file of kind `file` open.
    pub fn has_file(&self, file: LogFileType) -> (r: bool)
        ensures
            r == self.open_files_view().contains(file),
    {
        let mut i: usize = 0;
        while i < self.open_files.len()
            invariant
                i <= self.open_files@.len(),
                forall|j: int| 0 <= j < i ==> self.open_files@[j] != file,
            decreases self.open_files@.len() - i,
        {
            if self.open_files[i] == file {
                return true;
            }
            i = i + 1;
        }
        false
    }

    /// Hands out the accepted records, oldest first, and forgets them.
    pub fn take_pending(&mut self) -> (r: Vec<LogRecord>)
        ensures
            records_view(r@) == old(self).pending_view(),
            final(self).pending_view() == Seq::<(LogFileType, LogEventView)>::empty(),
            final(self).config_view() == old(self).config_view(),
            final(self).open_files_view() == old(self).open_files_view(),
    {
        let mut r: Vec<LogRecord> = Vec::new();
        std::mem::swap(&mut r, &mut self.pending);
        assert(records_view(self.pending@) =~= Seq::empty());
        r
    }

    /// Logs an event at a level: it is written to the file it belongs in when
    /// logging is enabled, the level is at least the configured one, and that
    /// file is open.
    pub fn log_event(&mut self, event: LogEvent, level: LogLevel)
        ensures
            final(self).logged(old(self), event@, level),
    {
        if !self.config.enabled || level.is_below(&self.config.log_level) {
            assert(records_view(self.pending@) + Seq::empty() =~= records_view(self.pending@));
            return ;
        }
        let file = event.route();
        if self.has_file(file) {
            let ghost before = self.pending@;
            let ghost ev = event@;
            self.pending.push(LogRecord { file, event });
            assert(records_view(self.pending@) =~= records_view(before) + seq![(file, ev)]);
        } else {
            assert(records_view(self.pending@) + Seq::empty() =~= records_view(self.pending@));
        }
    }

    /// Logs the start of a transaction.
    pub fn log_transaction_start(&mut self, txn_id: TxnIndex, incarnation: Incarnation, at: &Moment)
        ensures
            final(self).logged(
                old(self),
                LogEventView::TransactionStart {
                    transaction_id: txn_id,
                    incarnation,
                    thread_id: at.thread_id,
                    timestamp: at.timestamp_us,
                },
                LogLevel::Info,
            ),
    {
        let event = LogEvent::TransactionStart {
            transaction_id: txn_id,
            incarnation,
            thread_id: at.thread_id,
            timestamp: at.timestamp_us,
        };
        self.log_event(event, LogLevel::Info);
    }

    /// Logs the end of a transaction with its result, duration and sizes.
    pub fn log_transaction_finish(&mut self, txn_id: TxnIndex, incarnation: Incarnation, execution_result: &str, duration_us: u64, gas_used: u64, read_set_size: usize, write_set_size: usize, at: &Moment)
        ensures
            final(self).logged(
                old(self),
                LogEventView::TransactionFinish {
                    transaction_id: txn_id,
                    incarnation: incarnation,
                    thread_id: at.thread_id,
                    timestamp: at.timestamp_us,
                    execution_result: execution_result@,
                    duration_us: duration_us,
                    gas_used: gas_used,
                    read_set_size: read_set_size,
                    write_set_size: write_set_size,
                },
                LogLevel::Info,
            ),
    {
        let event = LogEvent::TransactionFinish {
            transaction_id: txn_id,
            incarnation: incarnation,
            thread_id: at.thread_id,
            timestamp: at.timestamp_us,
            execution_result: String::from_str(execution_result),
            duration_us: duration_us,
            gas_used: gas_used,
            read_set_size: read_set_size,
            write_set_size: write_set_size,
        };
        self.log_event(event, LogLevel::Info);
    }

    /// Logs the abort of a transaction.
    pub fn log_transaction_abort(&mut self, txn_id: TxnIndex, incarnation: Incarnation, abort_reason: &str, retry_count: u32, dependencies: Vec<TxnIndex>, at: &Moment)
        ensures
            final(self).logged(
                old(self),
                LogEventView::TransactionAbort {
                    transaction_id: txn_id,
                    incarnation: incarnation,
                    thread_id: at.thread_id,
                    timestamp: at.timestamp_us,
                    abort_reason: abort_reason@,
                    retry_count: retry_count,
                    dependencies: dependencies@,
                },
                LogLevel::Warn,
            ),
    {
        let event = LogEvent::TransactionAbort {
            transaction_id: txn_id,
            incarnation: incarnation,
            thread_id: at.thread_id,
            timestamp: at.timestamp_us,
            abort_reason: String::from_str(abort_reason),
            retry_count: retry_count,
            dependencies: dependencies,
        };
        self.log_event(event, LogLevel::Warn);
    }

    /// Logs the validation of a transaction.
    pub fn log_validation(&mut self, txn_id: TxnIndex, validation_result: bool, duration_us: u64, at: &Moment)
        ensures
            final(self).logged(
                old(self),
                LogEventView::TransactionValidate {
                    transaction_id: txn_id,
                    thread_id: at.thread_id,
                    timestamp: at.timestamp_us,
                    validation_result: validation_result,
                    duration_us: duration_us,
                },
                LogLevel::Info,
            ),
    {
        let event = LogEvent::TransactionValidate {
            transaction_id: txn_id,
            thread_id: at.thread_id,
            timestamp: at.timestamp_us,
            validation_result: validation_result,
            duration_us: duration_us,
        };
        self.log_event(event, LogLevel::Info);
    }

    /// Logs that a transaction stalls on others.
    pub fn log_dependency_stall(&mut self, txn_id: TxnIndex, stalled_by: Vec<TxnIndex>, at: &Moment)
        ensures
            final(self).logged(
                old(self),
                LogEventView::DependencyStall {
                    transaction_id: txn_id,
                    thread_id: at.thread_id,
                    timestamp: at.timestamp_us,
                    stalled_by: stalled_by@,
                },
                LogLevel::Debug,
            ),
    {
        let event = LogEvent::DependencyStall {
            transaction_id: txn_id,
            thread_id: at.thread_id,
            timestamp: at.timestamp_us,
            stalled_by: stalled_by,
        };
        self.log_event(event, LogLevel::Debug);
    }

    /// Logs that a transaction stops stalling.
    pub fn log_dependency_unstall(&mut self, txn_id: TxnIndex, unstalled_by: TxnIndex, at: &Moment)
        ensures
            final(self).logged(
                old(self),
                LogEventView::DependencyUnstall {
                    transaction_id: txn_id,
                    thread_id: at.thread_id,
                    timestamp: at.timestamp_us,
                    unstalled_by: unstalled_by,
                },
                LogLevel::Debug,
            ),
    {
        let event = LogEvent::DependencyUnstall {
            transaction_id: txn_id,
            thread_id: at.thread_id,
            timestamp: at.timestamp_us,
            unstalled_by: unstalled_by,
        };
        self.log_event(event, LogLevel::Debug);
    }

    /// Logs a read/write conflict between two transactions.
    pub fn log_readwrite_conflict(&mut self, txn_id: TxnIndex, conflicting_txn: TxnIndex, conflict_key: &str, conflict_type: &str, at: &Moment)
        ensures
            final(self).logged(
                old(self),
                LogEventView::ReadWriteConflict {
                    transaction_id: txn_id,
                    conflicting_txn: conflicting_txn,
                    thread_id: at.thread_id,
                    timestamp: at.timestamp_us,
                    conflict_key: conflict_key@,
                    conflict_type: conflict_type@,
                },
                LogLevel::Warn,
            ),
    {
        let event = LogEvent::ReadWriteConflict {
            transaction_id: txn_id,
            conflicting_txn: conflicting_txn,
            thread_id: at.thread_id,
            timestamp: at.timestamp_us,
            conflict_key: String::from_str(conflict_key),
            conflict_type: String::from_str(conflict_type),
        };
        self.log_event(event, LogLevel::Warn);
    }

    /// Logs a performance metric; its value is given by its bit pattern.
    pub fn log_performance_metric(&mut self, metric_name: &str, metric_value_bits: u64, txn_id: Option<TxnIndex>, additional_data: Vec<(String, String)>, at: &Moment)
        ensures
            final(self).logged(
                old(self),
                LogEventView::PerformanceMetric {
                    timestamp: at.timestamp_us,
                    metric_name: metric_name@,
                    metric_value_bits: metric_value_bits,
                    transaction_id: txn_id,
                    thread_id: at.thread_id,
                    additional_data: pairs_view(additional_data@),
                },
                LogLevel::Info,
            ),
    {
        let event = LogEvent::PerformanceMetric {
            timestamp: at.timestamp_us,
            metric_name: String::from_str(metric_name),
            metric_value_bits: metric_value_bits,
            transaction_id: txn_id,
            thread_id: at.thread_id,
            additional_data: additional_data,
        };
        self.log_event(event, LogLevel::Info);
    }

    /// Logs a read of the multi-version hash map.
    pub fn log_mvhashmap_read(&mut self, txn_id: TxnIndex, incarnation: Incarnation, state_key: &str, read_result: &str, version: Option<TxnIndex>, at: &Moment)
        ensures
            final(self).logged(
                old(self),
                LogEventView::MVHashMapRead {
                    transaction_id: txn_id,
                    incarnation: incarnation,
                    thread_id: at.thread_id,
                    timestamp: at.timestamp_us,
                    state_key: state_key@,
                    read_result: read_result@,
                    version: version,
                },
                LogLevel::Debug,
            ),
    {
        let event = LogEvent::MVHashMapRead {
            transaction_id: txn_id,
            incarnation: incarnation,
            thread_id: at.thread_id,
            timestamp: at.timestamp_us,
            state_key: String::from_str(state_key),
            read_result: String::from_str(read_result),
            version: version,
        };
        self.log_event(event, LogLevel::Debug);
    }

    /// Logs a write to the multi-version hash map.
    pub fn log_mvhashmap_write(&mut self, txn_id: TxnIndex, incarnation: Incarnation, state_key: &str, value_size: usize, write_type: &str, at: &Moment)
        ensures
            final(self).logged(
                old(self),
                LogEventView::MVHashMapWrite {
                    transaction_id: txn_id,
                    incarnation: incarnation,
                    thread_id: at.thread_id,
                    timestamp: at.timestamp_us,
                    state_key: state_key@,
                    value_size: value_size,
                    write_type: write_type@,
                },
                LogLevel::Debug,
            ),
    {
        let event = LogEvent::MVHashMapWrite {
            transaction_id: txn_id,
            incarnation: incarnation,
            thread_id: at.thread_id,
            timestamp: at.timestamp_us,
            state_key: String::from_str(state_key),
            value_size: value_size,
            write_type: String::from_str(write_type),
        };
        self.log_event(event, LogLevel::Debug);
    }

    /// Logs that the scheduler assigned a task.
    pub fn log_scheduler_task_assignment(&mut self, at: &Moment)
        ensures
            final(self).logged(
                old(self),
                LogEventView::SchedulerStateTransition {
                    timestamp: at.timestamp_us,
                    thread_id: at.thread_id,
                    old_state: "idle"@,
                    new_state: "task_assigned"@,
                    transaction_id: None,
                    trigger_reason: "task_assignment"@,
                },
                LogLevel::Debug,
            ),
    {
        let event = LogEvent::SchedulerStateTransition {
            timestamp: at.timestamp_us,
            thread_id: at.thread_id,
            old_state: String::from_str("idle"),
            new_state: String::from_str("task_assigned"),
            transaction_id: None,
            trigger_reason: String::from_str("task_assignment"),
        };
        self.log_event(event, LogLevel::Debug);
    }

    /// Logs the commit of a transaction.
    pub fn log_transaction_commit(&mut self, txn_id: TxnIndex, incarnation: Incarnation, at: &Moment)
        ensures
            final(self).logged(
                old(self),
                LogEventView::ExecutionStateTransition {
                    transaction_id: txn_id,
                    incarnation: incarnation,
                    thread_id: at.thread_id,
                    timestamp: at.timestamp_us,
                    old_state: "executing"@,
                    new_state: "committed"@,
                    transition_reason: "commit_complete"@,
                    execution_phase: "Commit"@,
                },
                LogLevel::Debug,
            ),
    {
        let event = LogEvent::ExecutionStateTransition {
            transaction_id: txn_id,
            incarnation: incarnation,
            thread_id: at.thread_id,
            timestamp: at.timestamp_us,
            old_state: String::from_str("executing"),
            new_state: String::from_str("committed"),
            transition_reason: String::from_str("commit_complete"),
            execution_phase: String::from_str("Commit"),
        };
        self.log_event(event, LogLevel::Debug);
    }

    /// Logs a state transition of the scheduler.
    pub fn log_scheduler_state_transition(&mut self, old_state: &str, new_state: &str, txn_id: Option<TxnIndex>, trigger_reason: &str, at: &Moment)
        ensures
            final(self).logged(
                old(self),
                LogEventView::SchedulerStateTransition {
                    timestamp: at.timestamp_us,
                    thread_id: at.thread_id,
                    old_state: old_state@,
                    new_state: new_state@,
                    transaction_id: txn_id,
                    trigger_reason: trigger_reason@,
                },
                LogLevel::Debug,
            ),
    {
        let event = LogEvent::SchedulerStateTransition {
            timestamp: at.timestamp_us,
            thread_id: at.thread_id,
            old_state: String::from_str(old_state),
            new_state: String::from_str(new_state),
            transaction_id: txn_id,
            trigger_reason: String::from_str(trigger_reason),
        };
        self.log_event(event, LogLevel::Debug);
    }

    /// Logs a change of the dependencies of a transaction.
    pub fn log_dependency_tracking(&mut self, txn_id: TxnIndex, incarnation: Incarnation, dependency_type: &str, dependent_txn: TxnIndex, state_key: &str, action: &str, at: &Moment)
        ensures
            final(self).logged(
                old(self),
                LogEventView::DependencyTracking {
                    transaction_id: txn_id,
                    incarnation: incarnation,
                    thread_id: at.thread_id,
                    timestamp: at.timestamp_us,
                    dependency_type: dependency_type@,
                    dependent_txn: dependent_txn,
                    state_key: state_key@,
                    action: action@,
                },
                LogLevel::Debug,
            ),
    {
        let event = LogEvent::DependencyTracking {
            transaction_id: txn_id,
            incarnation: incarnation,
            thread_id: at.thread_id,
            timestamp: at.timestamp_us,
            dependency_type: String::from_str(dependency_type),
            dependent_txn: dependent_txn,
            state_key: String::from_str(state_key),
            action: String::from_str(action),
        };
        self.log_event(event, LogLevel::Debug);
    }

    /// Logs a stall spreading from one transaction to others.
    pub fn log_stall_propagation(&mut self, owner_txn: TxnIndex, affected_txns: Vec<TxnIndex>, propagation_type: &str, reason: &str, at: &Moment)
        ensures
            final(self).logged(
                old(self),
                LogEventView::StallPropagation {
                    timestamp: at.timestamp_us,
                    thread_id: at.thread_id,
                    owner_txn: owner_txn,
                    affected_txns: affected_txns@,
                    propagation_type: propagation_type@,
                    reason: reason@,
                },
                LogLevel::Debug,
            ),
    {
        let event = LogEvent::StallPropagation {
            timestamp: at.timestamp_us,
            thread_id: at.thread_id,
            owner_txn: owner_txn,
            affected_txns: affected_txns,
            propagation_type: String::from_str(propagation_type),
            reason: String::from_str(reason),
        };
        self.log_event(event, LogLevel::Debug);
    }

    /// Logs a state transition of the execution of a transaction.
    pub fn log_execution_state_transition(&mut self, txn_id: TxnIndex, incarnation: Incarnation, old_state: &str, new_state: &str, transition_reason: &str, execution_phase: &str, at: &Moment)
        ensures
            final(self).logged(
                old(self),
                LogEventView::ExecutionStateTransition {
                    transaction_id: txn_id,
                    incarnation: incarnation,
                    thread_id: at.thread_id,
                    timestamp: at.timestamp_us,
                    old_state: old_state@,
                    new_state: new_state@,
                    transition_reason: transition_reason@,
                    execution_phase: execution_phase@,
                },
                LogLevel::Debug,
            ),
    {
        let event = LogEvent::ExecutionStateTransition {
            transaction_id: txn_id,
            incarnation: incarnation,
            thread_id: at.thread_id,
            timestamp: at.timestamp_us,
            old_state: String::from_str(old_state),
            new_state: String::from_str(new_state),
            transition_reason: String::from_str(transition_reason),
            execution_phase: String::from_str(execution_phase),
        };
        self.log_event(event, LogLevel::Debug);
    }

    /// Logs a step of the execution of a block.
    pub fn log_block_execution_flow(&mut self, block_id: u64, flow_event: &str, phase_name: &str, transaction_count: usize, active_threads: usize, additional_info: Vec<(String, String)>, at: &Moment)
        ensures
            final(self).logged(
                old(self),
                LogEventView::BlockExecutionFlow {
                    timestamp: at.timestamp_us,
                    block_id: block_id,
                    flow_event: flow_event@,
                    phase_name: phase_name@,
                    transaction_count: transaction_count,
                    active_threads: active_threads,
                    additional_info: pairs_view(additional_info@),
                },
                LogLevel::Info,
            ),
    {
        let event = LogEvent::BlockExecutionFlow {
            timestamp: at.timestamp_us,
            block_id: block_id,
            flow_event: String::from_str(flow_event),
            phase_name: String::from_str(phase_name),
            transaction_count: transaction_count,
            active_threads: active_threads,
            additional_info: additional_info,
        };
        self.log_event(event, LogLevel::Info);
    }

    /// Logs how a source record maps to a transaction index.
    pub fn log_transaction_mapping(&mut self, txn_id: TxnIndex, original_index: usize, block_id: u64, mapping_type: &str, source_data: &str, mapped_data: &str, at: &Moment)
        ensures
            final(self).logged(
                old(self),
                LogEventView::TransactionMapping {
                    timestamp: at.timestamp_us,
                    transaction_id: txn_id,
                    original_index: original_index,
                    block_id: block_id,
                    mapping_type: mapping_type@,
                    source_data: source_data@,
                    mapped_data: mapped_data@,
                },
                LogLevel::Debug,
            ),
    {
        let event = LogEvent::TransactionMapping {
            timestamp: at.timestamp_us,
            transaction_id: txn_id,
            original_index: original_index,
            block_id: block_id,
            mapping_type: String::from_str(mapping_type),
            source_data: String::from_str(source_data),
            mapped_data: String::from_str(mapped_data),
        };
        self.log_event(event, LogLevel::Debug);
    }

    /// Logs the read and write sets of a transaction, when the configuration
    /// asks for read/write details.
    pub fn log_readwrite_set_change(
        &mut self,
        txn_id: TxnIndex,
        incarnation: Incarnation,
        read_keys: Vec<String>,
        write_keys: Vec<String>,
        resource_reads: usize,
        resource_writes: usize,
        module_reads: usize,
        module_writes: usize,
        delayed_field_reads: usize,
        delayed_field_writes: usize,
        at: &Moment,
    )
        ensures
            !old(self).config_view().include_read_write_details ==> final(self).unchanged(old(self)),
            old(self).config_view().include_read_write_details ==> final(self).logged(
                old(self),
                LogEventView::ReadWriteSetChange {
                    transaction_id: txn_id,
                    incarnation,
                    thread_id: at.thread_id,
                    timestamp: at.timestamp_us,
                    read_keys: strings_view(read_keys@),
                    write_keys: strings_view(write_keys@),
                    resource_reads,
                    resource_writes,
                    module_reads,
                    module_writes,
                    delayed_field_reads,
                    delayed_field_writes,
                },
                LogLevel::Debug,
            ),
    {
        if !self.config.include_read_write_details {
            return ;
        }
        let event = LogEvent::ReadWriteSetChange {
            transaction_id: txn_id,
            incarnation,
            thread_id: at.thread_id,
            timestamp: at.timestamp_us,
            read_keys,
            write_keys,
            resource_reads,
            resource_writes,
            module_reads,
            module_writes,
            delayed_field_reads,
            delayed_field_writes,
        };
        self.log_event(event, LogLevel::Debug);
    }
}


/// Sets up the global logger in `slot` from `config`, once. `files_opened`
/// is the outcome of creating the log directory and files that the
/// configuration asks for; a failure there is reported first, and a slot that
/// already holds a logger is left as it is.
pub fn init_global_logger(
    slot: &mut Option<BlockSTMLogger>,
    config: LoggingConfig,
    files_opened: Result<(), std::io::Error>,
) -> (r: Result<(), InitError>)
    ensures
        files_opened is Err ==> {
            &&& *final(slot) == *old(slot)
            &&& r matches Err(InitError::Io(e)) && e == files_opened->Err_0
        },
        files_opened is Ok && (*old(slot)) is Some ==> {
            &&& *final(slot) == *old(slot)
            &&& r matches Err(InitError::AlreadyExists(m)) && m@ == "Logger already initialized"@
        },
        files_opened is Ok && (*old(slot)) is None ==> {
            &&& r is Ok
            &&& *final(slot) matches Some(l) && l.config_view() == config && l.open_files_view() == (
            if config.enabled {
                all_file_types()
            } else {
                Seq::empty()
            }) && l.pending_view() == Seq::<(LogFileType, LogEventView)>::empty()
        },
{
    match files_opened {
        Err(e) => Err(InitError::Io(e)),
        Ok(()) => {
            if slot.is_some() {
                Err(InitError::AlreadyExists(String::from_str("Logger already initialized")))
            } else {
                *slot = Some(BlockSTMLogger::new(config));
                Ok(())
            }
        },
    }
}

/// A disabled logger writes nothing, whatever the event and its level.
pub proof fn lemma_disabled_logger_writes_nothing(l: BlockSTMLogger, e: LogEventView, level: LogLevel)
    requires
        !l.config_view().enabled,
    ensures
        l.emission(e, level) == Seq::<(LogFileType, LogEventView)>::empty(),
{
}

/// An event below the configured level is not written.
pub proof fn lemma_level_below_threshold_writes_nothing(
    l: BlockSTMLogger,
    e: LogEventView,
    level: LogLevel,
)
    requires
        level_rank(level) < level_rank(l.config_view().log_level),
    ensures
        l.emission(e, level) == Seq::<(LogFileType, LogEventView)>::empty(),
{
}

/// A logger with every file open writes each event of an enabled level, once,
/// to the file that event belongs in.
pub proof fn lemma_enabled_logger_writes_to_its_file(
    l: BlockSTMLogger,
    e: LogEventView,
    level: LogLevel,
)
    requires
        l.config_view().enabled,
        l.open_files_view() == all_file_types(),
        level_rank(level) >= level_rank(l.config_view().log_level),
    ensures
        l.emission(e, level) == seq![(spec_route(e), e)],
{
    let f = spec_route(e);
    assert(all_file_types().contains(f)) by {
        match f {
            LogFileType::Execution => assert(all_file_types()[0] == f),
            LogFileType::Concurrency => assert(all_file_types()[1] == f),
            LogFileType::ReadWrite => assert(all_file_types()[2] == f),
            LogFileType::Performance => assert(all_file_types()[3] == f),
            LogFileType::Summary => assert(all_file_types()[4] == f),
        }
    }
}

/// Distinct kinds of file have distinct file names.
pub proof fn lemma_filenames_distinct(f: LogFileType, g: LogFileType)
    requires
        f != g,
    ensures
        spec_filename(f) != spec_filename(g),
{
    reveal_strlit("block_stm_execution.log");
    reveal_strlit("block_stm_concurrency.log");
    reveal_strlit("block_stm_readwrite.log");
    reveal_strlit("block_stm_performance.log");
    reveal_strlit("block_stm_summary.log");
    let a = spec_filename(f);
    let b = spec_filename(g);
    if a.len() == b.len() {
        assert(a[10] != b[10]);
    }
}


/// Each event kind is written to the file of its category: transaction start,
/// finish and state changes to the execution log; aborts, stalls, conflicts,
/// dependency tracking, stall propagation and scheduler transitions to the
/// concurrency log; read-write sets and multi-version reads and writes to the
/// read-write log; metrics to the performance log; and validation, block flow
/// and transaction mappings to the summary log.
pub proof fn lemma_events_route_by_category(e: LogEventView)
    ensures
        (e is TransactionStart || e is TransactionFinish || e is ExecutionStateTransition)
            ==> spec_route(e) == LogFileType::Execution,
        (e is TransactionAbort || e is DependencyStall || e is DependencyUnstall
            || e is ReadWriteConflict || e is DependencyTracking || e is StallPropagation
            || e is SchedulerStateTransition) ==> spec_route(e) == LogFileType::Concurrency,
        (e is ReadWriteSetChange || e is MVHashMapRead || e is MVHashMapWrite) ==> spec_route(e)
            == LogFileType::ReadWrite,
        e is PerformanceMetric ==> spec_route(e) == LogFileType::Performance,
        (e is TransactionValidate || e is BlockExecutionFlow || e is TransactionMapping)
            ==> spec_route(e) == LogFileType::Summary,
{
}
} // verus!
