//! The block executor logger: the event model with the file each event
//! belongs in, the execution and stall statistics it keeps, and the logger
//! state machine that decides, call by call, what is counted and what is
//! written.
//!
//! The logger does not touch files, clocks or threads itself. Each call is
//! given a [`Moment`] (timestamps, a monotonic clock and the calling thread),
//! and every line the logger decides to write is queued as a [`LogRecord`]
//! naming its file; whoever owns the files writes the queue out.

use vstd::prelude::*;
use std::collections::HashMap;
use std::collections::HashSet;
pub use crate::config::{
    level_rank, opt_string_view, pairs_view, strings_view, Incarnation, LogLevel, LoggingConfig,
    Moment, TxnIndex,
};
use crate::text::{parse_u32, spec_parse_unsigned};
use crate::config::str_equal;

verus! {

broadcast use vstd::std_specs::hash::group_hash_axioms;

/// The kinds of log file. Each event kind is routed to exactly one of them;
/// the performance and read-write files also keep copies of the performance
/// metric and read-write set events.
#[derive(Debug, Clone, Copy, PartialEq, Eq, Structural, Hash)]
pub enum LogFileType {
    BlockSummary,
    SchedulerStates,
    MVHashMapOps,
    Dependencies,
    ExecutionFlow,
    AbortRecovery,
    DetailedOperations,
    SystemOperations,
    StallEvents,
    TransactionStalls,
    SystemStalls,
    Execution,
    Performance,
    ReadWrite,
}

/// The name of the file of each kind.
pub open spec fn spec_filename(f: LogFileType) -> Seq<char> {
    match f {
        LogFileType::BlockSummary => "block_summary.ndjson"@,
        LogFileType::SchedulerStates => "scheduler_states.ndjson"@,
        LogFileType::MVHashMapOps => "mvhashmap_ops.ndjson"@,
        LogFileType::Dependencies => "dependencies.ndjson"@,
        LogFileType::ExecutionFlow => "execution_flow.ndjson"@,
        LogFileType::AbortRecovery => "abort_recovery.ndjson"@,
        LogFileType::DetailedOperations => "detailed_operations.ndjson"@,
        LogFileType::SystemOperations => "system_operations.ndjson"@,
        LogFileType::StallEvents => "stall_events.ndjson"@,
        LogFileType::TransactionStalls => "transaction_stalls.ndjson"@,
        LogFileType::SystemStalls => "system_stalls.ndjson"@,
        LogFileType::Execution => "block_stm_execution.log"@,
        LogFileType::Performance => "block_stm_performance.log"@,
        LogFileType::ReadWrite => "block_stm_readwrite.log"@,
    }
}

impl LogFileType {
    /// The name of the file of this kind.
    pub fn filename(&self) -> (r: &'static str)
        ensures
            r@ == spec_filename(*self),
    {
        match self {
            LogFileType::BlockSummary => "block_summary.ndjson",
            LogFileType::SchedulerStates => "scheduler_states.ndjson",
            LogFileType::MVHashMapOps => "mvhashmap_ops.ndjson",
            LogFileType::Dependencies => "dependencies.ndjson",
            LogFileType::ExecutionFlow => "execution_flow.ndjson",
            LogFileType::AbortRecovery => "abort_recovery.ndjson",
            LogFileType::DetailedOperations => "detailed_operations.ndjson",
            LogFileType::SystemOperations => "system_operations.ndjson",
            LogFileType::StallEvents => "stall_events.ndjson",
            LogFileType::TransactionStalls => "transaction_stalls.ndjson",
            LogFileType::SystemStalls => "system_stalls.ndjson",
            LogFileType::Execution => "block_stm_execution.log",
            LogFileType::Performance => "block_stm_performance.log",
            LogFileType::ReadWrite => "block_stm_readwrite.log",
        }
    }
}

/// The file kinds that an enabled logger opens, in order: every kind.
pub open spec fn opened_file_types() -> Seq<LogFileType> {
    seq![
        LogFileType::BlockSummary,
        LogFileType::SchedulerStates,
        LogFileType::MVHashMapOps,
        LogFileType::Dependencies,
        LogFileType::ExecutionFlow,
        LogFileType::AbortRecovery,
        LogFileType::DetailedOperations,
        LogFileType::SystemOperations,
        LogFileType::StallEvents,
        LogFileType::TransactionStalls,
        LogFileType::SystemStalls,
        LogFileType::Execution,
        LogFileType::Performance,
        LogFileType::ReadWrite,
    ]
}

/// The file kinds that an enabled logger opens, in order.
pub fn opened_file_kinds() -> (r: Vec<LogFileType>)
    ensures
        r@ == opened_file_types(),
{
    let r = vec![
        LogFileType::BlockSummary,
        LogFileType::SchedulerStates,
        LogFileType::MVHashMapOps,
        LogFileType::Dependencies,
        LogFileType::ExecutionFlow,
        LogFileType::AbortRecovery,
        LogFileType::DetailedOperations,
        LogFileType::SystemOperations,
        LogFileType::StallEvents,
        LogFileType::TransactionStalls,
        LogFileType::SystemStalls,
        LogFileType::Execution,
        LogFileType::Performance,
        LogFileType::ReadWrite,
    ];
    assert(r@ =~= opened_file_types());
    r
}

/// `a + b` modulo 2^32, as an atomic counter adds.
pub open spec fn add_u32(a: u32, b: u32) -> u32 {
    ((a + b) % 0x1_0000_0000) as u32
}

/// `a + b` modulo 2^64, as an atomic counter adds.
pub open spec fn add_u64(a: u64, b: u64) -> u64 {
    ((a + b) % 0x1_0000_0000_0000_0000) as u64
}

/// Whole microseconds from `start_ns` to `now_ns` on the monotonic clock, or
/// zero where `now_ns` is not later.
pub open spec fn micros_between(start_ns: u64, now_ns: u64) -> u64 {
    if now_ns >= start_ns {
        ((now_ns - start_ns) / 1000) as u64
    } else {
        0
    }
}

/// Nanoseconds from `start_ns` to `now_ns`, or zero where `now_ns` is not later.
pub open spec fn nanos_between(start_ns: u64, now_ns: u64) -> u64 {
    if now_ns >= start_ns {
        (now_ns - start_ns) as u64
    } else {
        0
    }
}

fn wrap_add_u32(a: u32, b: u32) -> (r: u32)
    ensures
        r == add_u32(a, b),
{
    if a as u64 + b as u64 <= u32::MAX as u64 {
        a + b
    } else {
        let r = ((a as u64 + b as u64) - 0x1_0000_0000u64) as u32;
        r
    }
}

fn wrap_add_u64(a: u64, b: u64) -> (r: u64)
    ensures
        r == add_u64(a, b),
{
    if a <= u64::MAX - b {
        a + b
    } else {
        let r = b - (u64::MAX - a) - 1;
        r
    }
}

fn elapsed_micros(start_ns: u64, now_ns: u64) -> (r: u64)
    ensures
        r == micros_between(start_ns, now_ns),
{
    if now_ns >= start_ns {
        (now_ns - start_ns) / 1000
    } else {
        0
    }
}

fn elapsed_nanos(start_ns: u64, now_ns: u64) -> (r: u64)
    ensures
        r == nanos_between(start_ns, now_ns),
{
    now_ns.saturating_sub(start_ns)
}

/// Where a run takes its data from and how it samples.
pub struct ExecutionContext {
    /// Kind of data set ("ETH", "USDT", ...).
    pub dataset: String,
    /// Path of the source CSV file.
    pub source_csv: String,
    /// Sampling period, in milliseconds.
    pub sample_period_ms: u32,
    /// Bit pattern of the share of reads that are sampled.
    pub read_sample_rate_bits: u64,
}

/// The value of an [`ExecutionContext`].
pub ghost struct ExecutionContextView {
    pub dataset: Seq<char>,
    pub source_csv: Seq<char>,
    pub sample_period_ms: u32,
    pub read_sample_rate_bits: u64,
}

impl View for ExecutionContext {
    type V = ExecutionContextView;

    open spec fn view(&self) -> ExecutionContextView {
        ExecutionContextView {
            dataset: self.dataset@,
            source_csv: self.source_csv@,
            sample_period_ms: self.sample_period_ms,
            read_sample_rate_bits: self.read_sample_rate_bits,
        }
    }
}

/// The sampling period that a setting selects: the number it holds, or fifty
/// where it is absent or not a number.
pub open spec fn sample_period_setting(setting: Option<Seq<char>>) -> u32 {
    let text = match setting {
        Some(t) => t,
        None => "50"@,
    };
    match spec_parse_unsigned(text, u32::MAX as nat) {
        Some(v) => v as u32,
        None => 50,
    }
}

impl ExecutionContext {
    /// The default context: unknown data set and source, the sampling period
    /// that `sample_period_ms` selects and the given read sample rate.
    pub fn from_settings(sample_period_ms: Option<&str>, read_sample_rate_bits: u64) -> (r:
        ExecutionContext)
        ensures
            r@.dataset == "UNKNOWN"@,
            r@.source_csv == "unknown"@,
            r@.sample_period_ms == sample_period_setting(crate::config::opt_str_view(sample_period_ms)),
            r@.read_sample_rate_bits == read_sample_rate_bits,
    {
        let text = match sample_period_ms {
            Some(t) => t,
            None => "50",
        };
        let period = match parse_u32(text) {
            Some(v) => v,
            None => 50,
        };
        ExecutionContext {
            dataset: String::from_str("UNKNOWN"),
            source_csv: String::from_str("unknown"),
            sample_period_ms: period,
            read_sample_rate_bits,
        }
    }

    /// A copy of this context.
    pub fn copy(&self) -> (r: ExecutionContext)
        ensures
            r@ == self@,
    {
        ExecutionContext {
            dataset: self.dataset.clone(),
            source_csv: self.source_csv.clone(),
            sample_period_ms: self.sample_period_ms,
            read_sample_rate_bits: self.read_sample_rate_bits,
        }
    }
}

/// Execution statistics of one transaction.
#[derive(Debug, Clone)]
pub struct TransactionStats {
    /// Kind of the task that last ran it.
    pub task_kind: String,
    /// Whether the last execution was the first one.
    pub first_execution: bool,
    /// Duration of the last execution, in microseconds.
    pub execution_time_us: u64,
    /// Number of re-executions.
    pub reexecution_count: u32,
    /// Number of stalls.
    pub stall_count: u32,
    /// Execution waterline when it ran.
    pub waterline_at_exec: u32,
    /// Number of aborts.
    pub abort_count: u32,
    /// Monotonic-clock nanoseconds when the last execution started.
    pub start_time: Option<u64>,
}

/// The value of a [`TransactionStats`].
pub ghost struct TransactionStatsView {
    pub task_kind: Seq<char>,
    pub first_execution: bool,
    pub execution_time_us: u64,
    pub reexecution_count: u32,
    pub stall_count: u32,
    pub waterline_at_exec: u32,
    pub abort_count: u32,
    pub start_time: Option<u64>,
}

impl View for TransactionStats {
    type V = TransactionStatsView;

    open spec fn view(&self) -> TransactionStatsView {
        TransactionStatsView {
            task_kind: self.task_kind@,
            first_execution: self.first_execution,
            execution_time_us: self.execution_time_us,
            reexecution_count: self.reexecution_count,
            stall_count: self.stall_count,
            waterline_at_exec: self.waterline_at_exec,
            abort_count: self.abort_count,
            start_time: self.start_time,
        }
    }
}

/// The statistics of a transaction that nothing has been recorded for.
pub open spec fn default_transaction_stats() -> TransactionStatsView {
    TransactionStatsView {
        task_kind: Seq::empty(),
        first_execution: false,
        execution_time_us: 0,
        reexecution_count: 0,
        stall_count: 0,
        waterline_at_exec: 0,
        abort_count: 0,
        start_time: None,
    }
}

impl TransactionStats {
    /// Statistics with nothing recorded.
    pub fn empty() -> (r: TransactionStats)
        ensures
            r@ == default_transaction_stats(),
    {
        TransactionStats {
            task_kind: String::new(),
            first_execution: false,
            execution_time_us: 0,
            reexecution_count: 0,
            stall_count: 0,
            waterline_at_exec: 0,
            abort_count: 0,
            start_time: None,
        }
    }

    /// A copy of these statistics.
    pub fn copy(&self) -> (r: TransactionStats)
        ensures
            r@ == self@,
    {
        TransactionStats {
            task_kind: self.task_kind.clone(),
            first_execution: self.first_execution,
            execution_time_us: self.execution_time_us,
            reexecution_count: self.reexecution_count,
            stall_count: self.stall_count,
            waterline_at_exec: self.waterline_at_exec,
            abort_count: self.abort_count,
            start_time: self.start_time,
        }
    }
}

/// When a stall of an incarnation of a transaction began.
#[derive(Debug, Clone, Copy, PartialEq, Eq, Structural)]
pub struct StallStart {
    pub txn_id: TxnIndex,
    pub incarnation: Incarnation,
    /// Monotonic-clock nanoseconds.
    pub start_ns: u64,
}

/// Statistics of the execution of a block.
pub struct BlockExecutionStats {
    /// Stall events.
    pub stall_events_count: u32,
    /// Advances of the execution waterline.
    pub waterline_advances_count: u32,
    /// Abort cycles.
    pub abort_cycles_count: u32,
    /// Largest number of concurrent executions seen.
    pub max_concurrent_executions: u32,
    /// Executions that were re-executions.
    pub total_reexecutions: u64,
    /// All executions.
    pub total_transactions: u64,
    /// Transitions of commit markers.
    pub commit_marker_transitions: u32,
    /// Post-commit tasks.
    pub post_commit_tasks_count: u32,
    /// Number of tasks of each kind, one entry per kind.
    pub task_distribution_map: Vec<(String, u32)>,
    /// Samples of the number of concurrent executions.
    pub concurrent_execution_samples: Vec<u32>,
    /// Monotonic-clock nanoseconds when the block execution started.
    pub start_time: Option<u64>,
    /// Statistics of each transaction.
    pub transaction_stats: HashMap<u32, TransactionStats>,
    /// Identifiers of the threads that took part.
    pub participating_threads: HashSet<u64>,
    /// Total time spent stalled, in nanoseconds.
    pub total_stall_time_ns: u64,
    /// Start of each ongoing stall, one entry per incarnation.
    pub stall_start_times: Vec<StallStart>,
}

/// The value of a [`BlockExecutionStats`].
pub ghost struct BlockExecutionStatsView {
    pub stall_events_count: u32,
    pub waterline_advances_count: u32,
    pub abort_cycles_count: u32,
    pub max_concurrent_executions: u32,
    pub total_reexecutions: u64,
    pub total_transactions: u64,
    pub commit_marker_transitions: u32,
    pub post_commit_tasks_count: u32,
    pub task_distribution: Seq<(Seq<char>, u32)>,
    pub concurrent_execution_samples: Seq<u32>,
    pub start_time: Option<u64>,
    pub transaction_stats: Map<u32, TransactionStatsView>,
    pub participating_threads: Set<u64>,
    pub total_stall_time_ns: u64,
    pub stall_start_times: Seq<StallStart>,
}

impl View for BlockExecutionStats {
    type V = BlockExecutionStatsView;

    open spec fn view(&self) -> BlockExecutionStatsView {
        BlockExecutionStatsView {
            stall_events_count: self.stall_events_count,
            waterline_advances_count: self.waterline_advances_count,
            abort_cycles_count: self.abort_cycles_count,
            max_concurrent_executions: self.max_concurrent_executions,
            total_reexecutions: self.total_reexecutions,
            total_transactions: self.total_transactions,
            commit_marker_transitions: self.commit_marker_transitions,
            post_commit_tasks_count: self.post_commit_tasks_count,
            task_distribution: self.task_distribution_map@.map_values(
                |p: (String, u32)| (p.0@, p.1),
            ),
            concurrent_execution_samples: self.concurrent_execution_samples@,
            start_time: self.start_time,
            transaction_stats: self.transaction_stats@.map_values(|s: TransactionStats| s@),
            participating_threads: self.participating_threads@,
            total_stall_time_ns: self.total_stall_time_ns,
            stall_start_times: self.stall_start_times@,
        }
    }
}

/// Statistics with nothing counted.
pub open spec fn empty_execution_stats() -> BlockExecutionStatsView {
    BlockExecutionStatsView {
        stall_events_count: 0,
        waterline_advances_count: 0,
        abort_cycles_count: 0,
        max_concurrent_executions: 0,
        total_reexecutions: 0,
        total_transactions: 0,
        commit_marker_transitions: 0,
        post_commit_tasks_count: 0,
        task_distribution: Seq::empty(),
        concurrent_execution_samples: Seq::empty(),
        start_time: None,
        transaction_stats: Map::empty(),
        participating_threads: Set::empty(),
        total_stall_time_ns: 0,
        stall_start_times: Seq::empty(),
    }
}

impl BlockExecutionStats {
    /// Statistics with nothing counted.
    pub fn empty() -> (r: BlockExecutionStats)
        ensures
            r@ == empty_execution_stats(),
    {
        let r = BlockExecutionStats {
            stall_events_count: 0,
            waterline_advances_count: 0,
            abort_cycles_count: 0,
            max_concurrent_executions: 0,
            total_reexecutions: 0,
            total_transactions: 0,
            commit_marker_transitions: 0,
            post_commit_tasks_count: 0,
            task_distribution_map: Vec::new(),
            concurrent_execution_samples: Vec::new(),
            start_time: None,
            transaction_stats: HashMap::new(),
            participating_threads: HashSet::new(),
            total_stall_time_ns: 0,
            stall_start_times: Vec::new(),
        };
        assert(r@.task_distribution =~= Seq::empty());
        assert(r@.transaction_stats =~= Map::empty());
        assert(r@.participating_threads =~= Set::empty());
        r
    }
}

/// Stall statistics kept apart for transaction-level and system-level stalls.
pub struct SeparatedStallStatistics {
    /// Transaction-level stalls.
    pub transaction_stalls: u32,
    /// Total duration of transaction-level stalls, in microseconds.
    pub transaction_stall_duration_total_us: u64,
    /// Transaction-level stalls of each transaction.
    pub transaction_stall_count_by_txn: HashMap<u32, u32>,
    /// System-level stalls.
    pub system_stalls: u32,
    /// Total duration of system-level stalls, in microseconds.
    pub system_stall_duration_total_us: u64,
    /// System-level stalls of each worker.
    pub system_stall_count_by_worker: HashMap<u32, u32>,
    /// All stall events.
    pub total_stall_events: u32,
    /// Monotonic-clock nanoseconds when the statistics were last reset.
    pub stall_statistics_start_time: Option<u64>,
    /// Start of the ongoing system-level stall of each worker.
    pub system_stall_start_times: HashMap<u32, u64>,
}

/// The value of a [`SeparatedStallStatistics`].
pub ghost struct SeparatedStallStatisticsView {
    pub transaction_stalls: u32,
    pub transaction_stall_duration_total_us: u64,
    pub transaction_stall_count_by_txn: Map<u32, u32>,
    pub system_stalls: u32,
    pub system_stall_duration_total_us: u64,
    pub system_stall_count_by_worker: Map<u32, u32>,
    pub total_stall_events: u32,
    pub stall_statistics_start_time: Option<u64>,
    pub system_stall_start_times: Map<u32, u64>,
}

impl View for SeparatedStallStatistics {
    type V = SeparatedStallStatisticsView;

    open spec fn view(&self) -> SeparatedStallStatisticsView {
        SeparatedStallStatisticsView {
            transaction_stalls: self.transaction_stalls,
            transaction_stall_duration_total_us: self.transaction_stall_duration_total_us,
            transaction_stall_count_by_txn: self.transaction_stall_count_by_txn@,
            system_stalls: self.system_stalls,
            system_stall_duration_total_us: self.system_stall_duration_total_us,
            system_stall_count_by_worker: self.system_stall_count_by_worker@,
            total_stall_events: self.total_stall_events,
            stall_statistics_start_time: self.stall_statistics_start_time,
            system_stall_start_times: self.system_stall_start_times@,
        }
    }
}

/// Separated statistics with nothing counted, started at `start`.
pub open spec fn reset_stall_stats(start: Option<u64>) -> SeparatedStallStatisticsView {
    SeparatedStallStatisticsView {
        transaction_stalls: 0,
        transaction_stall_duration_total_us: 0,
        transaction_stall_count_by_txn: Map::empty(),
        system_stalls: 0,
        system_stall_duration_total_us: 0,
        system_stall_count_by_worker: Map::empty(),
        total_stall_events: 0,
        stall_statistics_start_time: start,
        system_stall_start_times: Map::empty(),
    }
}

impl SeparatedStallStatistics {
    /// Statistics with nothing counted, started at `start`.
    pub fn empty(start: Option<u64>) -> (r: SeparatedStallStatistics)
        ensures
            r@ == reset_stall_stats(start),
    {
        SeparatedStallStatistics {
            transaction_stalls: 0,
            transaction_stall_duration_total_us: 0,
            transaction_stall_count_by_txn: HashMap::new(),
            system_stalls: 0,
            system_stall_duration_total_us: 0,
            system_stall_count_by_worker: HashMap::new(),
            total_stall_events: 0,
            stall_statistics_start_time: start,
            system_stall_start_times: HashMap::new(),
        }
    }
}

/// One event of the log, as the logger records it; a floating-point
/// quantity is held by its IEEE-754 bit pattern (field names ending in `_bits`).
pub enum LogEvent {
    TransactionStart {
        transaction_id: u32,
        incarnation: u32,
        thread_id: u64,
        timestamp: u64,
    },
    TransactionFinish {
        transaction_id: u32,
        incarnation: u32,
        thread_id: u64,
        timestamp: u64,
        execution_result: String,
        duration_us: u64,
        gas_used: u64,
        read_set_size: usize,
        write_set_size: usize,
    },
    BlockStart {
        timestamp: u64,
        thread_id: u64,
        block_id: String,
        dataset: String,
        tx_count: u32,
        concurrency_level: u32,
        sample_period_ms: u32,
        read_sample_rate_bits: u64,
        source_csv: String,
    },
    BlockFinish {
        timestamp: u64,
        thread_list: Vec<u64>,
        block_id: String,
        committed_count: u32,
        total_duration_us: u64,
    },
    SchedulerSample {
        timestamp: u64,
        thread_id: u64,
        execution_min_index: u32,
        validation_min_index: u32,
        executing_tasks: u32,
        validating_tasks: u32,
        active_tasks: u32,
        done_marker: bool,
        scheduler_efficiency_bits: u64,
        avg_task_queue_depth_bits: u64,
        parallelism_utilization_bits: u64,
        contention_hotspots: Vec<String>,
    },
    SchedulerStateTransition {
        timestamp: u64,
        thread_id: u64,
        transaction_id: Option<u32>,
        incarnation: Option<u32>,
        old_state: String,
        new_state: String,
        trigger_reason: String,
    },
    TaskPicked {
        timestamp: u64,
        thread_id: u64,
        kind: String,
        transaction_id: u32,
        incarnation: u32,
        priority: Option<u32>,
    },
    TaskFinished {
        timestamp: u64,
        thread_id: u64,
        kind: String,
        transaction_id: u32,
        incarnation: u32,
        result: String,
        processing_time_us: u64,
    },
    MVRead {
        timestamp: u64,
        thread_id: u64,
        transaction_id: u32,
        incarnation: u32,
        state_key: String,
        read_from: String,
        writer_tx: Option<u32>,
        writer_incarnation: Option<u32>,
        is_estimate: bool,
        value_size: Option<usize>,
    },
    MVWrite {
        timestamp: u64,
        thread_id: u64,
        transaction_id: u32,
        incarnation: u32,
        state_key: String,
        value_size: usize,
        write_type: String,
    },
    EstimateMark {
        timestamp: u64,
        thread_id: u64,
        transaction_id: u32,
        incarnation: u32,
        state_keys_count: usize,
        resource_keys_count: usize,
        module_keys_count: usize,
    },
    EstimateClear {
        timestamp: u64,
        thread_id: u64,
        transaction_id: u32,
        incarnation: u32,
        cleared_keys_count: usize,
        cleared_resources_count: usize,
        cleared_modules_count: usize,
    },
    DependencyBlock {
        timestamp: u64,
        thread_id: u64,
        transaction_id: u32,
        incarnation: u32,
        depends_on_tx: u32,
        depends_on_incarnation: Option<u32>,
    },
    DependencyResolve {
        timestamp: u64,
        thread_id: u64,
        depender_tx: u32,
        on_tx: u32,
        resolve_cause: String,
    },
    ExecutionStart {
        timestamp: u64,
        thread_id: u64,
        transaction_id: u32,
        incarnation: u32,
        execution_phase: String,
    },
    ExecutionFinish {
        timestamp: u64,
        thread_id: u64,
        transaction_id: u32,
        incarnation: u32,
        result: String,
        exec_duration_us: u64,
        gas_used: u64,
        read_set_size: usize,
        write_set_size: usize,
        resource_reads: usize,
        resource_writes: usize,
        module_reads: usize,
        module_writes: usize,
        delayed_field_reads: usize,
        delayed_field_writes: usize,
    },
    ValidationStart {
        timestamp: u64,
        thread_id: u64,
        transaction_id: u32,
        incarnation: u32,
        is_revalidation: bool,
        validation_wave: u32,
    },
    ValidationFinish {
        timestamp: u64,
        thread_id: u64,
        transaction_id: u32,
        incarnation: u32,
        result: String,
    },
    ValidationConflict {
        timestamp: u64,
        thread_id: u64,
        transaction_id: u32,
        incarnation: u32,
        state_key: String,
        conflict_type: String,
        conflicting_txn: u32,
        conflicting_incarnation: Option<u32>,
        expected_version: Option<String>,
        observed_version: Option<String>,
        violator_tx: Option<u32>,
        conflict_location: String,
    },
    RescheduleHigher {
        timestamp: u64,
        thread_id: u64,
        trigger_tx: u32,
        affected_count: u32,
        reschedule_reason: String,
    },
    AbortInitiated {
        timestamp: u64,
        thread_id: u64,
        transaction_id: u32,
        incarnation: u32,
        abort_reason: String,
        retry_count: u32,
        dependencies: Vec<u32>,
    },
    IncarnationIncrement {
        timestamp: u64,
        thread_id: u64,
        transaction_id: u32,
        old_incarnation: u32,
        new_incarnation: u32,
        increment_reason: String,
    },
    TransactionOutputDetail {
        timestamp: u64,
        thread_id: u64,
        transaction_id: u32,
        incarnation: u32,
        gas_used: u64,
        fee_statement: String,
        output_approx_size: u64,
        resource_write_count: usize,
        module_write_count: usize,
        aggregator_v1_write_count: usize,
        aggregator_v1_delta_count: usize,
        delayed_field_change_count: usize,
        event_count: usize,
        resource_group_write_count: usize,
        reads_needing_delayed_field_exchange_count: usize,
        group_reads_needing_delayed_field_exchange_count: usize,
        has_new_epoch_event: bool,
        is_retry: bool,
        is_success: bool,
        execution_status: String,
        write_summary_hash: String,
    },
    AggregatorOperation {
        timestamp: u64,
        thread_id: u64,
        transaction_id: u32,
        incarnation: u32,
        aggregator_key: String,
        operation_type: String,
        delta_value: Option<i128>,
        base_value: Option<u128>,
        resolved_value: Option<u128>,
        aggregator_limit: Option<u128>,
        delta_history: String,
        application_result: String,
    },
    DelayedFieldOperation {
        timestamp: u64,
        thread_id: u64,
        transaction_id: u32,
        incarnation: u32,
        delayed_field_id: String,
        operation_type: String,
        field_value: Option<String>,
        change_type: String,
        needs_exchange: bool,
        exchange_result: String,
    },
    ResourceGroupOperation {
        timestamp: u64,
        thread_id: u64,
        transaction_id: u32,
        incarnation: u32,
        group_key: String,
        operation_type: String,
        group_size: Option<u64>,
        tag_count: usize,
        affected_tags: Vec<String>,
        metadata_changed: bool,
        size_limit_exceeded: bool,
    },
    ModuleCacheOperation {
        timestamp: u64,
        thread_id: u64,
        transaction_id: u32,
        incarnation: u32,
        module_id: String,
        operation_type: String,
        module_size: Option<usize>,
        cache_hit: bool,
        compilation_required: bool,
        cache_utilization_bits: u64,
    },
    EventEmission {
        timestamp: u64,
        thread_id: u64,
        transaction_id: u32,
        incarnation: u32,
        event_type: String,
        event_key: String,
        event_sequence_number: u64,
        event_data_size: usize,
        event_has_layout: bool,
    },
    ReadWriteSetChange {
        timestamp: u64,
        thread_id: u64,
        transaction_id: u32,
        incarnation: u32,
        read_keys: Vec<String>,
        write_keys: Vec<String>,
        resource_reads: usize,
        resource_writes: usize,
        module_reads: usize,
        module_writes: usize,
        delayed_field_reads: usize,
        delayed_field_writes: usize,
        aggregator_v1_reads: usize,
        aggregator_v1_writes: usize,
        resource_group_reads: usize,
        resource_group_writes: usize,
        read_set_delta: i32,
        write_set_delta: i32,
        change_trigger: String,
    },
    PerformanceMetric {
        timestamp: u64,
        thread_id: u64,
        metric_name: String,
        metric_value_bits: u64,
        transaction_id: Option<u32>,
        incarnation: Option<u32>,
        metric_unit: String,
        measurement_context: String,
        additional_data: Vec<(String, String)>,
    },
    SchedulerMetric {
        timestamp: u64,
        thread_id: u64,
        metric_name: String,
        metric_value_bits: u64,
        metric_unit: String,
        measurement_context: String,
        additional_data: Vec<(String, String)>,
    },
    MemoryUsageSnapshot {
        timestamp: u64,
        thread_id: u64,
        mvhashmap_size: usize,
        mvhashmap_key_count: usize,
        total_base_value_size: u64,
        estimate_entries_count: usize,
        dependency_edges_count: usize,
        scheduler_memory_usage: usize,
        executor_memory_usage: usize,
        thread_local_cache_size: usize,
    },
    LockContention {
        timestamp: u64,
        thread_id: u64,
        lock_type: String,
        lock_identifier: String,
        contention_type: String,
        wait_time_us: u64,
        holder_thread_id: Option<u64>,
        queue_depth: u32,
    },
    StallPropagation {
        timestamp: u64,
        thread_id: u64,
        owner_txn: u32,
        owner_incarnation: Option<u32>,
        affected_txns: Vec<u32>,
        affected_incarnations: Vec<u32>,
        propagation_type: String,
        reason: String,
    },
    TaskSuspend {
        timestamp: u64,
        thread_id: u64,
        transaction_id: u32,
        incarnation: u32,
        suspend_reason: String,
        depends_on_tx: Option<u32>,
    },
    TaskResume {
        timestamp: u64,
        thread_id: u64,
        transaction_id: u32,
        incarnation: u32,
        resume_reason: String,
        resolved_by_tx: Option<u32>,
    },
    StallAdd {
        timestamp: u64,
        thread_id: u64,
        transaction_id: u32,
        incarnation: u32,
        by_tx: u32,
        stall_count_after: u32,
        first_stall: bool,
    },
    StallRemove {
        timestamp: u64,
        thread_id: u64,
        transaction_id: u32,
        incarnation: u32,
        by_tx: u32,
        stall_count_after: u32,
        became_unstalled: bool,
    },
    StallPropagateTick {
        timestamp: u64,
        thread_id: u64,
        source_tx: u32,
        affected_range: Vec<u32>,
        propagated_count: u32,
        propagation_type: String,
    },
    WaterlineAdvance {
        timestamp: u64,
        thread_id: u64,
        executed_once_max_idx_after: u32,
        advanced_by_tx: u32,
        previous_waterline: u32,
    },
    AbortStart {
        timestamp: u64,
        thread_id: u64,
        transaction_id: u32,
        incarnation: u32,
        by_tx: u32,
        result: String,
    },
    AbortFinish {
        timestamp: u64,
        thread_id: u64,
        transaction_id: u32,
        incarnation: u32,
        by_tx: u32,
        result: String,
        new_incarnation: Option<u32>,
    },
    InvalidationEdge {
        timestamp: u64,
        thread_id: u64,
        by_tx: u32,
        to_tx: u32,
        to_incarnation: Option<u32>,
        key: Option<String>,
    },
    CommitMarkerTransition {
        timestamp: u64,
        thread_id: u64,
        transaction_id: u32,
        from_marker: String,
        to_marker: String,
    },
    PostCommitStart {
        timestamp: u64,
        thread_id: u64,
        transaction_id: u32,
        hook_kind: String,
    },
    PostCommitFinish {
        timestamp: u64,
        thread_id: u64,
        transaction_id: u32,
        hook_kind: String,
        duration_us: u64,
    },
    ExecutionPhaseTransition {
        timestamp: u64,
        thread_id: u64,
        transaction_id: u32,
        incarnation: u32,
        from_phase: String,
        to_phase: String,
        is_reexecution: bool,
        first_reexecution_deferred: bool,
        executed_once_watermark: u32,
        defer_reason: Option<String>,
    },
    TaskPickedV2 {
        timestamp: u64,
        picked_ts_us: u64,
        thread_id: u64,
        task_kind: String,
        tx_index: u32,
        incarnation: u32,
        is_first_execution: bool,
        from_queue: String,
    },
    TaskFinishedV2 {
        timestamp: u64,
        finished_ts_us: u64,
        thread_id: u64,
        task_kind: String,
        tx_index: u32,
        incarnation: u32,
        result: String,
        processing_time_us: u64,
        is_reexecution: bool,
        first_reexecution_deferred: bool,
        executed_once_watermark: u32,
        defer_reason: Option<String>,
    },
    DependencyBlocked {
        timestamp: u64,
        thread_id: u64,
        dependent_tx: u32,
        on_tx: u32,
        reason: String,
        state_key: Option<String>,
    },
    DependencyUnblocked {
        timestamp: u64,
        thread_id: u64,
        dependent_tx: u32,
        on_tx: u32,
        reason: String,
        wait_time_us: u64,
    },
    MVReadV2 {
        timestamp: u64,
        thread_id: u64,
        transaction_id: u32,
        incarnation: u32,
        key: String,
        source: String,
        result: String,
        writer_tx: Option<u32>,
        writer_incarnation: Option<u32>,
        value_size: Option<usize>,
    },
    SystemStallStart {
        timestamp: u64,
        thread_id: u64,
        worker_id: u32,
        total_workers: u32,
        reason: String,
        scheduler_state: String,
        system_stall_count_before: u32,
        system_stall_count_after: u32,
        stall_transition: String,
    },
    SystemStallEnd {
        timestamp: u64,
        thread_id: u64,
        worker_id: u32,
        total_workers: u32,
        reason: String,
        scheduler_state: String,
        system_stall_count_before: u32,
        system_stall_count_after: u32,
        stall_transition: String,
        duration_us: u64,
    },
    TransactionStallAdd {
        timestamp: u64,
        thread_id: u64,
        txn_id: u32,
        incarnation: u32,
        by_tx: u32,
        transaction_stall_count_before: u32,
        transaction_stall_count_after: u32,
        first_stall: bool,
        stall_transition: String,
    },
    TransactionStallRemove {
        timestamp: u64,
        thread_id: u64,
        txn_id: u32,
        incarnation: u32,
        by_tx: u32,
        transaction_stall_count_before: u32,
        transaction_stall_count_after: u32,
        became_unstalled: bool,
        stall_transition: String,
    },
}

/// The mathematical value of a [`LogEvent`]: strings as character sequences.
pub ghost enum LogEventView {
    TransactionStart {
        transaction_id: u32,
        incarnation: u32,
        thread_id: u64,
        timestamp: u64,
    },
    TransactionFinish {
        transaction_id: u32,
        incarnation: u32,
        thread_id: u64,
        timestamp: u64,
        execution_result: Seq<char>,
        duration_us: u64,
        gas_used: u64,
        read_set_size: usize,
        write_set_size: usize,
    },
    BlockStart {
        timestamp: u64,
        thread_id: u64,
        block_id: Seq<char>,
        dataset: Seq<char>,
        tx_count: u32,
        concurrency_level: u32,
        sample_period_ms: u32,
        read_sample_rate_bits: u64,
        source_csv: Seq<char>,
    },
    BlockFinish {
        timestamp: u64,
        thread_list: Seq<u64>,
        block_id: Seq<char>,
        committed_count: u32,
        total_duration_us: u64,
    },
    SchedulerSample {
        timestamp: u64,
        thread_id: u64,
        execution_min_index: u32,
        validation_min_index: u32,
        executing_tasks: u32,
        validating_tasks: u32,
        active_tasks: u32,
        done_marker: bool,
        scheduler_efficiency_bits: u64,
        avg_task_queue_depth_bits: u64,
        parallelism_utilization_bits: u64,
        contention_hotspots: Seq<Seq<char>>,
    },
    SchedulerStateTransition {
        timestamp: u64,
        thread_id: u64,
        transaction_id: Option<u32>,
        incarnation: Option<u32>,
        old_state: Seq<char>,
        new_state: Seq<char>,
        trigger_reason: Seq<char>,
    },
    TaskPicked {
        timestamp: u64,
        thread_id: u64,
        kind: Seq<char>,
        transaction_id: u32,
        incarnation: u32,
        priority: Option<u32>,
    },
    TaskFinished {
        timestamp: u64,
        thread_id: u64,
        kind: Seq<char>,
        transaction_id: u32,
        incarnation: u32,
        result: Seq<char>,
        processing_time_us: u64,
    },
    MVRead {
        timestamp: u64,
        thread_id: u64,
        transaction_id: u32,
        incarnation: u32,
        state_key: Seq<char>,
        read_from: Seq<char>,
        writer_tx: Option<u32>,
        writer_incarnation: Option<u32>,
        is_estimate: bool,
        value_size: Option<usize>,
    },
    MVWrite {
        timestamp: u64,
        thread_id: u64,
        transaction_id: u32,
        incarnation: u32,
        state_key: Seq<char>,
        value_size: usize,
        write_type: Seq<char>,
    },
    EstimateMark {
        timestamp: u64,
        thread_id: u64,
        transaction_id: u32,
        incarnation: u32,
        state_keys_count: usize,
        resource_keys_count: usize,
        module_keys_count: usize,
    },
    EstimateClear {
        timestamp: u64,
        thread_id: u64,
        transaction_id: u32,
        incarnation: u32,
        cleared_keys_count: usize,
        cleared_resources_count: usize,
        cleared_modules_count: usize,
    },
    DependencyBlock {
        timestamp: u64,
        thread_id: u64,
        transaction_id: u32,
        incarnation: u32,
        depends_on_tx: u32,
        depends_on_incarnation: Option<u32>,
    },
    DependencyResolve {
        timestamp: u64,
        thread_id: u64,
        depender_tx: u32,
        on_tx: u32,
        resolve_cause: Seq<char>,
    },
    ExecutionStart {
        timestamp: u64,
        thread_id: u64,
        transaction_id: u32,
        incarnation: u32,
        execution_phase: Seq<char>,
    },
    ExecutionFinish {
        timestamp: u64,
        thread_id: u64,
        transaction_id: u32,
        incarnation: u32,
        result: Seq<char>,
        exec_duration_us: u64,
        gas_used: u64,
        read_set_size: usize,
        write_set_size: usize,
        resource_reads: usize,
        resource_writes: usize,
        module_reads: usize,
        module_writes: usize,
        delayed_field_reads: usize,
        delayed_field_writes: usize,
    },
    ValidationStart {
        timestamp: u64,
        thread_id: u64,
        transaction_id: u32,
        incarnation: u32,
        is_revalidation: bool,
        validation_wave: u32,
    },
    ValidationFinish {
        timestamp: u64,
        thread_id: u64,
        transaction_id: u32,
        incarnation: u32,
        result: Seq<char>,
    },
    ValidationConflict {
        timestamp: u64,
        thread_id: u64,
        transaction_id: u32,
        incarnation: u32,
        state_key: Seq<char>,
        conflict_type: Seq<char>,
        conflicting_txn: u32,
        conflicting_incarnation: Option<u32>,
        expected_version: Option<Seq<char>>,
        observed_version: Option<Seq<char>>,
        violator_tx: Option<u32>,
        conflict_location: Seq<char>,
    },
    RescheduleHigher {
        timestamp: u64,
        thread_id: u64,
        trigger_tx: u32,
        affected_count: u32,
        reschedule_reason: Seq<char>,
    },
    AbortInitiated {
        timestamp: u64,
        thread_id: u64,
        transaction_id: u32,
        incarnation: u32,
        abort_reason: Seq<char>,
        retry_count: u32,
        dependencies: Seq<u32>,
    },
    IncarnationIncrement {
        timestamp: u64,
        thread_id: u64,
        transaction_id: u32,
        old_incarnation: u32,
        new_incarnation: u32,
        increment_reason: Seq<char>,
    },
    TransactionOutputDetail {
        timestamp: u64,
        thread_id: u64,
        transaction_id: u32,
        incarnation: u32,
        gas_used: u64,
        fee_statement: Seq<char>,
        output_approx_size: u64,
        resource_write_count: usize,
        module_write_count: usize,
        aggregator_v1_write_count: usize,
        aggregator_v1_delta_count: usize,
        delayed_field_change_count: usize,
        event_count: usize,
        resource_group_write_count: usize,
        reads_needing_delayed_field_exchange_count: usize,
        group_reads_needing_delayed_field_exchange_count: usize,
        has_new_epoch_event: bool,
        is_retry: bool,
        is_success: bool,
        execution_status: Seq<char>,
        write_summary_hash: Seq<char>,
    },
    AggregatorOperation {
        timestamp: u64,
        thread_id: u64,
        transaction_id: u32,
        incarnation: u32,
        aggregator_key: Seq<char>,
        operation_type: Seq<char>,
        delta_value: Option<i128>,
        base_value: Option<u128>,
        resolved_value: Option<u128>,
        aggregator_limit: Option<u128>,
        delta_history: Seq<char>,
        application_result: Seq<char>,
    },
    DelayedFieldOperation {
        timestamp: u64,
        thread_id: u64,
        transaction_id: u32,
        incarnation: u32,
        delayed_field_id: Seq<char>,
        operation_type: Seq<char>,
        field_value: Option<Seq<char>>,
        change_type: Seq<char>,
        needs_exchange: bool,
        exchange_result: Seq<char>,
    },
    ResourceGroupOperation {
        timestamp: u64,
        thread_id: u64,
        transaction_id: u32,
        incarnation: u32,
        group_key: Seq<char>,
        operation_type: Seq<char>,
        group_size: Option<u64>,
        tag_count: usize,
        affected_tags: Seq<Seq<char>>,
        metadata_changed: bool,
        size_limit_exceeded: bool,
    },
    ModuleCacheOperation {
        timestamp: u64,
        thread_id: u64,
        transaction_id: u32,
        incarnation: u32,
        module_id: Seq<char>,
        operation_type: Seq<char>,
        module_size: Option<usize>,
        cache_hit: bool,
        compilation_required: bool,
        cache_utilization_bits: u64,
    },
    EventEmission {
        timestamp: u64,
        thread_id: u64,
        transaction_id: u32,
        incarnation: u32,
        event_type: Seq<char>,
        event_key: Seq<char>,
        event_sequence_number: u64,
        event_data_size: usize,
        event_has_layout: bool,
    },
    ReadWriteSetChange {
        timestamp: u64,
        thread_id: u64,
        transaction_id: u32,
        incarnation: u32,
        read_keys: Seq<Seq<char>>,
        write_keys: Seq<Seq<char>>,
        resource_reads: usize,
        resource_writes: usize,
        module_reads: usize,
        module_writes: usize,
        delayed_field_reads: usize,
        delayed_field_writes: usize,
        aggregator_v1_reads: usize,
        aggregator_v1_writes: usize,
        resource_group_reads: usize,
        resource_group_writes: usize,
        read_set_delta: i32,
        write_set_delta: i32,
        change_trigger: Seq<char>,
    },
    PerformanceMetric {
        timestamp: u64,
        thread_id: u64,
        metric_name: Seq<char>,
        metric_value_bits: u64,
        transaction_id: Option<u32>,
        incarnation: Option<u32>,
        metric_unit: Seq<char>,
        measurement_context: Seq<char>,
        additional_data: Seq<(Seq<char>, Seq<char>)>,
    },
    SchedulerMetric {
        timestamp: u64,
        thread_id: u64,
        metric_name: Seq<char>,
        metric_value_bits: u64,
        metric_unit: Seq<char>,
        measurement_context: Seq<char>,
        additional_data: Seq<(Seq<char>, Seq<char>)>,
    },
    MemoryUsageSnapshot {
        timestamp: u64,
        thread_id: u64,
        mvhashmap_size: usize,
        mvhashmap_key_count: usize,
        total_base_value_size: u64,
        estimate_entries_count: usize,
        dependency_edges_count: usize,
        scheduler_memory_usage: usize,
        executor_memory_usage: usize,
        thread_local_cache_size: usize,
    },
    LockContention {
        timestamp: u64,
        thread_id: u64,
        lock_type: Seq<char>,
        lock_identifier: Seq<char>,
        contention_type: Seq<char>,
        wait_time_us: u64,
        holder_thread_id: Option<u64>,
        queue_depth: u32,
    },
    StallPropagation {
        timestamp: u64,
        thread_id: u64,
        owner_txn: u32,
        owner_incarnation: Option<u32>,
        affected_txns: Seq<u32>,
        affected_incarnations: Seq<u32>,
        propagation_type: Seq<char>,
        reason: Seq<char>,
    },
    TaskSuspend {
        timestamp: u64,
        thread_id: u64,
        transaction_id: u32,
        incarnation: u32,
        suspend_reason: Seq<char>,
        depends_on_tx: Option<u32>,
    },
    TaskResume {
        timestamp: u64,
        thread_id: u64,
        transaction_id: u32,
        incarnation: u32,
        resume_reason: Seq<char>,
        resolved_by_tx: Option<u32>,
    },
    StallAdd {
        timestamp: u64,
        thread_id: u64,
        transaction_id: u32,
        incarnation: u32,
        by_tx: u32,
        stall_count_after: u32,
        first_stall: bool,
    },
    StallRemove {
        timestamp: u64,
        thread_id: u64,
        transaction_id: u32,
        incarnation: u32,
        by_tx: u32,
        stall_count_after: u32,
        became_unstalled: bool,
    },
    StallPropagateTick {
        timestamp: u64,
        thread_id: u64,
        source_tx: u32,
        affected_range: Seq<u32>,
        propagated_count: u32,
        propagation_type: Seq<char>,
    },
    WaterlineAdvance {
        timestamp: u64,
        thread_id: u64,
        executed_once_max_idx_after: u32,
        advanced_by_tx: u32,
        previous_waterline: u32,
    },
    AbortStart {
        timestamp: u64,
        thread_id: u64,
        transaction_id: u32,
        incarnation: u32,
        by_tx: u32,
        result: Seq<char>,
    },
    AbortFinish {
        timestamp: u64,
        thread_id: u64,
        transaction_id: u32,
        incarnation: u32,
        by_tx: u32,
        result: Seq<char>,
        new_incarnation: Option<u32>,
    },
    InvalidationEdge {
        timestamp: u64,
        thread_id: u64,
        by_tx: u32,
        to_tx: u32,
        to_incarnation: Option<u32>,
        key: Option<Seq<char>>,
    },
    CommitMarkerTransition {
        timestamp: u64,
        thread_id: u64,
        transaction_id: u32,
        from_marker: Seq<char>,
        to_marker: Seq<char>,
    },
    PostCommitStart {
        timestamp: u64,
        thread_id: u64,
        transaction_id: u32,
        hook_kind: Seq<char>,
    },
    PostCommitFinish {
        timestamp: u64,
        thread_id: u64,
        transaction_id: u32,
        hook_kind: Seq<char>,
        duration_us: u64,
    },
    ExecutionPhaseTransition {
        timestamp: u64,
        thread_id: u64,
        transaction_id: u32,
        incarnation: u32,
        from_phase: Seq<char>,
        to_phase: Seq<char>,
        is_reexecution: bool,
        first_reexecution_deferred: bool,
        executed_once_watermark: u32,
        defer_reason: Option<Seq<char>>,
    },
    TaskPickedV2 {
        timestamp: u64,
        picked_ts_us: u64,
        thread_id: u64,
        task_kind: Seq<char>,
        tx_index: u32,
        incarnation: u32,
        is_first_execution: bool,
        from_queue: Seq<char>,
    },
    TaskFinishedV2 {
        timestamp: u64,
        finished_ts_us: u64,
        thread_id: u64,
        task_kind: Seq<char>,
        tx_index: u32,
        incarnation: u32,
        result: Seq<char>,
        processing_time_us: u64,
        is_reexecution: bool,
        first_reexecution_deferred: bool,
        executed_once_watermark: u32,
        defer_reason: Option<Seq<char>>,
    },
    DependencyBlocked {
        timestamp: u64,
        thread_id: u64,
        dependent_tx: u32,
        on_tx: u32,
        reason: Seq<char>,
        state_key: Option<Seq<char>>,
    },
    DependencyUnblocked {
        timestamp: u64,
        thread_id: u64,
        dependent_tx: u32,
        on_tx: u32,
        reason: Seq<char>,
        wait_time_us: u64,
    },
    MVReadV2 {
        timestamp: u64,
        thread_id: u64,
        transaction_id: u32,
        incarnation: u32,
        key: Seq<char>,
        source: Seq<char>,
        result: Seq<char>,
        writer_tx: Option<u32>,
        writer_incarnation: Option<u32>,
        value_size: Option<usize>,
    },
    SystemStallStart {
        timestamp: u64,
        thread_id: u64,
        worker_id: u32,
        total_workers: u32,
        reason: Seq<char>,
        scheduler_state: Seq<char>,
        system_stall_count_before: u32,
        system_stall_count_after: u32,
        stall_transition: Seq<char>,
    },
    SystemStallEnd {
        timestamp: u64,
        thread_id: u64,
        worker_id: u32,
        total_workers: u32,
        reason: Seq<char>,
        scheduler_state: Seq<char>,
        system_stall_count_before: u32,
        system_stall_count_after: u32,
        stall_transition: Seq<char>,
        duration_us: u64,
    },
    TransactionStallAdd {
        timestamp: u64,
        thread_id: u64,
        txn_id: u32,
        incarnation: u32,
        by_tx: u32,
        transaction_stall_count_before: u32,
        transaction_stall_count_after: u32,
        first_stall: bool,
        stall_transition: Seq<char>,
    },
    TransactionStallRemove {
        timestamp: u64,
        thread_id: u64,
        txn_id: u32,
        incarnation: u32,
        by_tx: u32,
        transaction_stall_count_before: u32,
        transaction_stall_count_after: u32,
        became_unstalled: bool,
        stall_transition: Seq<char>,
    },
}

impl View for LogEvent {
    type V = LogEventView;

    open spec fn view(&self) -> LogEventView {
        match self {
            LogEvent::TransactionStart { transaction_id, incarnation, thread_id, timestamp } => LogEventView::TransactionStart {
                transaction_id: *transaction_id,
                incarnation: *incarnation,
                thread_id: *thread_id,
                timestamp: *timestamp,
            },
            LogEvent::TransactionFinish { transaction_id, incarnation, thread_id, timestamp, execution_result, duration_us, gas_used, read_set_size, write_set_size } => LogEventView::TransactionFinish {
                transaction_id: *transaction_id,
                incarnation: *incarnation,
                thread_id: *thread_id,
                timestamp: *timestamp,
                execution_result: execution_result@,
                duration_us: *duration_us,
                gas_used: *gas_used,
                read_set_size: *read_set_size,
                write_set_size: *write_set_size,
            },
            LogEvent::BlockStart { timestamp, thread_id, block_id, dataset, tx_count, concurrency_level, sample_period_ms, read_sample_rate_bits, source_csv } => LogEventView::BlockStart {
                timestamp: *timestamp,
                thread_id: *thread_id,
                block_id: block_id@,
                dataset: dataset@,
                tx_count: *tx_count,
                concurrency_level: *concurrency_level,
                sample_period_ms: *sample_period_ms,
                read_sample_rate_bits: *read_sample_rate_bits,
                source_csv: source_csv@,
            },
            LogEvent::BlockFinish { timestamp, thread_list, block_id, committed_count, total_duration_us } => LogEventView::BlockFinish {
                timestamp: *timestamp,
                thread_list: thread_list@,
                block_id: block_id@,
                committed_count: *committed_count,
                total_duration_us: *total_duration_us,
            },
            LogEvent::SchedulerSample { timestamp, thread_id, execution_min_index, validation_min_index, executing_tasks, validating_tasks, active_tasks, done_marker, scheduler_efficiency_bits, avg_task_queue_depth_bits, parallelism_utilization_bits, contention_hotspots } => LogEventView::SchedulerSample {
                timestamp: *timestamp,
                thread_id: *thread_id,
                execution_min_index: *execution_min_index,
                validation_min_index: *validation_min_index,
                executing_tasks: *executing_tasks,
                validating_tasks: *validating_tasks,
                active_tasks: *active_tasks,
                done_marker: *done_marker,
                scheduler_efficiency_bits: *scheduler_efficiency_bits,
                avg_task_queue_depth_bits: *avg_task_queue_depth_bits,
                parallelism_utilization_bits: *parallelism_utilization_bits,
                contention_hotspots: strings_view(contention_hotspots@),
            },
            LogEvent::SchedulerStateTransition { timestamp, thread_id, transaction_id, incarnation, old_state, new_state, trigger_reason } => LogEventView::SchedulerStateTransition {
                timestamp: *timestamp,
                thread_id: *thread_id,
                transaction_id: *transaction_id,
                incarnation: *incarnation,
                old_state: old_state@,
                new_state: new_state@,
                trigger_reason: trigger_reason@,
            },
            LogEvent::TaskPicked { timestamp, thread_id, kind, transaction_id, incarnation, priority } => LogEventView::TaskPicked {
                timestamp: *timestamp,
                thread_id: *thread_id,
                kind: kind@,
                transaction_id: *transaction_id,
                incarnation: *incarnation,
                priority: *priority,
            },
            LogEvent::TaskFinished { timestamp, thread_id, kind, transaction_id, incarnation, result, processing_time_us } => LogEventView::TaskFinished {
                timestamp: *timestamp,
                thread_id: *thread_id,
                kind: kind@,
                transaction_id: *transaction_id,
                incarnation: *incarnation,
                result: result@,
                processing_time_us: *processing_time_us,
            },
            LogEvent::MVRead { timestamp, thread_id, transaction_id, incarnation, state_key, read_from, writer_tx, writer_incarnation, is_estimate, value_size } => LogEventView::MVRead {
                timestamp: *timestamp,
                thread_id: *thread_id,
                transaction_id: *transaction_id,
                incarnation: *incarnation,
                state_key: state_key@,
                read_from: read_from@,
                writer_tx: *writer_tx,
                writer_incarnation: *writer_incarnation,
                is_estimate: *is_estimate,
                value_size: *value_size,
            },
            LogEvent::MVWrite { timestamp, thread_id, transaction_id, incarnation, state_key, value_size, write_type } => LogEventView::MVWrite {
                timestamp: *timestamp,
                thread_id: *thread_id,
                transaction_id: *transaction_id,
                incarnation: *incarnation,
                state_key: state_key@,
                value_size: *value_size,
                write_type: write_type@,
            },
            LogEvent::EstimateMark { timestamp, thread_id, transaction_id, incarnation, state_keys_count, resource_keys_count, module_keys_count } => LogEventView::EstimateMark {
                timestamp: *timestamp,
                thread_id: *thread_id,
                transaction_id: *transaction_id,
                incarnation: *incarnation,
                state_keys_count: *state_keys_count,
                resource_keys_count: *resource_keys_count,
                module_keys_count: *module_keys_count,
            },
            LogEvent::EstimateClear { timestamp, thread_id, transaction_id, incarnation, cleared_keys_count, cleared_resources_count, cleared_modules_count } => LogEventView::EstimateClear {
                timestamp: *timestamp,
                thread_id: *thread_id,
                transaction_id: *transaction_id,
                incarnation: *incarnation,
                cleared_keys_count: *cleared_keys_count,
                cleared_resources_count: *cleared_resources_count,
                cleared_modules_count: *cleared_modules_count,
            },
            LogEvent::DependencyBlock { timestamp, thread_id, transaction_id, incarnation, depends_on_tx, depends_on_incarnation } => LogEventView::DependencyBlock {
                timestamp: *timestamp,
                thread_id: *thread_id,
                transaction_id: *transaction_id,
                incarnation: *incarnation,
                depends_on_tx: *depends_on_tx,
                depends_on_incarnation: *depends_on_incarnation,
            },
            LogEvent::DependencyResolve { timestamp, thread_id, depender_tx, on_tx, resolve_cause } => LogEventView::DependencyResolve {
                timestamp: *timestamp,
                thread_id: *thread_id,
                depender_tx: *depender_tx,
                on_tx: *on_tx,
                resolve_cause: resolve_cause@,
            },
            LogEvent::ExecutionStart { timestamp, thread_id, transaction_id, incarnation, execution_phase } => LogEventView::ExecutionStart {
                timestamp: *timestamp,
                thread_id: *thread_id,
                transaction_id: *transaction_id,
                incarnation: *incarnation,
                execution_phase: execution_phase@,
            },
            LogEvent::ExecutionFinish { timestamp, thread_id, transaction_id, incarnation, result, exec_duration_us, gas_used, read_set_size, write_set_size, resource_reads, resource_writes, module_reads, module_writes, delayed_field_reads, delayed_field_writes } => LogEventView::ExecutionFinish {
                timestamp: *timestamp,
                thread_id: *thread_id,
                transaction_id: *transaction_id,
                incarnation: *incarnation,
                result: result@,
                exec_duration_us: *exec_duration_us,
                gas_used: *gas_used,
                read_set_size: *read_set_size,
                write_set_size: *write_set_size,
                resource_reads: *resource_reads,
                resource_writes: *resource_writes,
                module_reads: *module_reads,
                module_writes: *module_writes,
                delayed_field_reads: *delayed_field_reads,
                delayed_field_writes: *delayed_field_writes,
            },
            LogEvent::ValidationStart { timestamp, thread_id, transaction_id, incarnation, is_revalidation, validation_wave } => LogEventView::ValidationStart {
                timestamp: *timestamp,
                thread_id: *thread_id,
                transaction_id: *transaction_id,
                incarnation: *incarnation,
                is_revalidation: *is_revalidation,
                validation_wave: *validation_wave,
            },
            LogEvent::ValidationFinish { timestamp, thread_id, transaction_id, incarnation, result } => LogEventView::ValidationFinish {
                timestamp: *timestamp,
                thread_id: *thread_id,
                transaction_id: *transaction_id,
                incarnation: *incarnation,
                result: result@,
            },
            LogEvent::ValidationConflict { timestamp, thread_id, transaction_id, incarnation, state_key, conflict_type, conflicting_txn, conflicting_incarnation, expected_version, observed_version, violator_tx, conflict_location } => LogEventView::ValidationConflict {
                timestamp: *timestamp,
                thread_id: *thread_id,
                transaction_id: *transaction_id,
                incarnation: *incarnation,
                state_key: state_key@,
                conflict_type: conflict_type@,
                conflicting_txn: *conflicting_txn,
                conflicting_incarnation: *conflicting_incarnation,
                expected_version: opt_string_view(*expected_version),
                observed_version: opt_string_view(*observed_version),
                violator_tx: *violator_tx,
                conflict_location: conflict_location@,
            },
            LogEvent::RescheduleHigher { timestamp, thread_id, trigger_tx, affected_count, reschedule_reason } => LogEventView::RescheduleHigher {
                timestamp: *timestamp,
                thread_id: *thread_id,
                trigger_tx: *trigger_tx,
                affected_count: *affected_count,
                reschedule_reason: reschedule_reason@,
            },
            LogEvent::AbortInitiated { timestamp, thread_id, transaction_id, incarnation, abort_reason, retry_count, dependencies } => LogEventView::AbortInitiated {
                timestamp: *timestamp,
                thread_id: *thread_id,
                transaction_id: *transaction_id,
                incarnation: *incarnation,
                abort_reason: abort_reason@,
                retry_count: *retry_count,
                dependencies: dependencies@,
            },
            LogEvent::IncarnationIncrement { timestamp, thread_id, transaction_id, old_incarnation, new_incarnation, increment_reason } => LogEventView::IncarnationIncrement {
                timestamp: *timestamp,
                thread_id: *thread_id,
                transaction_id: *transaction_id,
                old_incarnation: *old_incarnation,
                new_incarnation: *new_incarnation,
                increment_reason: increment_reason@,
            },
            LogEvent::TransactionOutputDetail { timestamp, thread_id, transaction_id, incarnation, gas_used, fee_statement, output_approx_size, resource_write_count, module_write_count, aggregator_v1_write_count, aggregator_v1_delta_count, delayed_field_change_count, event_count, resource_group_write_count, reads_needing_delayed_field_exchange_count, group_reads_needing_delayed_field_exchange_count, has_new_epoch_event, is_retry, is_success, execution_status, write_summary_hash } => LogEventView::TransactionOutputDetail {
                timestamp: *timestamp,
                thread_id: *thread_id,
                transaction_id: *transaction_id,
                incarnation: *incarnation,
                gas_used: *gas_used,
                fee_statement: fee_statement@,
                output_approx_size: *output_approx_size,
                resource_write_count: *resource_write_count,
                module_write_count: *module_write_count,
                aggregator_v1_write_count: *aggregator_v1_write_count,
                aggregator_v1_delta_count: *aggregator_v1_delta_count,
                delayed_field_change_count: *delayed_field_change_count,
                event_count: *event_count,
                resource_group_write_count: *resource_group_write_count,
                reads_needing_delayed_field_exchange_count: *reads_needing_delayed_field_exchange_count,
                group_reads_needing_delayed_field_exchange_count: *group_reads_needing_delayed_field_exchange_count,
                has_new_epoch_event: *has_new_epoch_event,
                is_retry: *is_retry,
                is_success: *is_success,
                execution_status: execution_status@,
                write_summary_hash: write_summary_hash@,
            },
            LogEvent::AggregatorOperation { timestamp, thread_id, transaction_id, incarnation, aggregator_key, operation_type, delta_value, base_value, resolved_value, aggregator_limit, delta_history, application_result } => LogEventView::AggregatorOperation {
                timestamp: *timestamp,
                thread_id: *thread_id,
                transaction_id: *transaction_id,
                incarnation: *incarnation,
                aggregator_key: aggregator_key@,
                operation_type: operation_type@,
                delta_value: *delta_value,
                base_value: *base_value,
                resolved_value: *resolved_value,
                aggregator_limit: *aggregator_limit,
                delta_history: delta_history@,
                application_result: application_result@,
            },
            LogEvent::DelayedFieldOperation { timestamp, thread_id, transaction_id, incarnation, delayed_field_id, operation_type, field_value, change_type, needs_exchange, exchange_result } => LogEventView::DelayedFieldOperation {
                timestamp: *timestamp,
                thread_id: *thread_id,
                transaction_id: *transaction_id,
                incarnation: *incarnation,
                delayed_field_id: delayed_field_id@,
                operation_type: operation_type@,
                field_value: opt_string_view(*field_value),
                change_type: change_type@,
                needs_exchange: *needs_exchange,
                exchange_result: exchange_result@,
            },
            LogEvent::ResourceGroupOperation { timestamp, thread_id, transaction_id, incarnation, group_key, operation_type, group_size, tag_count, affected_tags, metadata_changed, size_limit_exceeded } => LogEventView::ResourceGroupOperation {
                timestamp: *timestamp,
                thread_id: *thread_id,
                transaction_id: *transaction_id,
                incarnation: *incarnation,
                group_key: group_key@,
                operation_type: operation_type@,
                group_size: *group_size,
                tag_count: *tag_count,
                affected_tags: strings_view(affected_tags@),
                metadata_changed: *metadata_changed,
                size_limit_exceeded: *size_limit_exceeded,
            },
            LogEvent::ModuleCacheOperation { timestamp, thread_id, transaction_id, incarnation, module_id, operation_type, module_size, cache_hit, compilation_required, cache_utilization_bits } => LogEventView::ModuleCacheOperation {
                timestamp: *timestamp,
                thread_id: *thread_id,
                transaction_id: *transaction_id,
                incarnation: *incarnation,
                module_id: module_id@,
                operation_type: operation_type@,
                module_size: *module_size,
                cache_hit: *cache_hit,
                compilation_required: *compilation_required,
                cache_utilization_bits: *cache_utilization_bits,
            },
            LogEvent::EventEmission { timestamp, thread_id, transaction_id, incarnation, event_type, event_key, event_sequence_number, event_data_size, event_has_layout } => LogEventView::EventEmission {
                timestamp: *timestamp,
                thread_id: *thread_id,
                transaction_id: *transaction_id,
                incarnation: *incarnation,
                event_type: event_type@,
                event_key: event_key@,
                event_sequence_number: *event_sequence_number,
                event_data_size: *event_data_size,
                event_has_layout: *event_has_layout,
            },
            LogEvent::ReadWriteSetChange { timestamp, thread_id, transaction_id, incarnation, read_keys, write_keys, resource_reads, resource_writes, module_reads, module_writes, delayed_field_reads, delayed_field_writes, aggregator_v1_reads, aggregator_v1_writes, resource_group_reads, resource_group_writes, read_set_delta, write_set_delta, change_trigger } => LogEventView::ReadWriteSetChange {
                timestamp: *timestamp,
                thread_id: *thread_id,
                transaction_id: *transaction_id,
                incarnation: *incarnation,
                read_keys: strings_view(read_keys@),
                write_keys: strings_view(write_keys@),
                resource_reads: *resource_reads,
                resource_writes: *resource_writes,
                module_reads: *module_reads,
                module_writes: *module_writes,
                delayed_field_reads: *delayed_field_reads,
                delayed_field_writes: *delayed_field_writes,
                aggregator_v1_reads: *aggregator_v1_reads,
                aggregator_v1_writes: *aggregator_v1_writes,
                resource_group_reads: *resource_group_reads,
                resource_group_writes: *resource_group_writes,
                read_set_delta: *read_set_delta,
                write_set_delta: *write_set_delta,
                change_trigger: change_trigger@,
            },
            LogEvent::PerformanceMetric { timestamp, thread_id, metric_name, metric_value_bits, transaction_id, incarnation, metric_unit, measurement_context, additional_data } => LogEventView::PerformanceMetric {
                timestamp: *timestamp,
                thread_id: *thread_id,
                metric_name: metric_name@,
                metric_value_bits: *metric_value_bits,
                transaction_id: *transaction_id,
                incarnation: *incarnation,
                metric_unit: metric_unit@,
                measurement_context: measurement_context@,
                additional_data: pairs_view(additional_data@),
            },
            LogEvent::SchedulerMetric { timestamp, thread_id, metric_name, metric_value_bits, metric_unit, measurement_context, additional_data } => LogEventView::SchedulerMetric {
                timestamp: *timestamp,
                thread_id: *thread_id,
                metric_name: metric_name@,
                metric_value_bits: *metric_value_bits,
                metric_unit: metric_unit@,
                measurement_context: measurement_context@,
                additional_data: pairs_view(additional_data@),
            },
            LogEvent::MemoryUsageSnapshot { timestamp, thread_id, mvhashmap_size, mvhashmap_key_count, total_base_value_size, estimate_entries_count, dependency_edges_count, scheduler_memory_usage, executor_memory_usage, thread_local_cache_size } => LogEventView::MemoryUsageSnapshot {
                timestamp: *timestamp,
                thread_id: *thread_id,
                mvhashmap_size: *mvhashmap_size,
                mvhashmap_key_count: *mvhashmap_key_count,
                total_base_value_size: *total_base_value_size,
                estimate_entries_count: *estimate_entries_count,
                dependency_edges_count: *dependency_edges_count,
                scheduler_memory_usage: *scheduler_memory_usage,
                executor_memory_usage: *executor_memory_usage,
                thread_local_cache_size: *thread_local_cache_size,
            },
            LogEvent::LockContention { timestamp, thread_id, lock_type, lock_identifier, contention_type, wait_time_us, holder_thread_id, queue_depth } => LogEventView::LockContention {
                timestamp: *timestamp,
                thread_id: *thread_id,
                lock_type: lock_type@,
                lock_identifier: lock_identifier@,
                contention_type: contention_type@,
                wait_time_us: *wait_time_us,
                holder_thread_id: *holder_thread_id,
                queue_depth: *queue_depth,
            },
            LogEvent::StallPropagation { timestamp, thread_id, owner_txn, owner_incarnation, affected_txns, affected_incarnations, propagation_type, reason } => LogEventView::StallPropagation {
                timestamp: *timestamp,
                thread_id: *thread_id,
                owner_txn: *owner_txn,
                owner_incarnation: *owner_incarnation,
                affected_txns: affected_txns@,
                affected_incarnations: affected_incarnations@,
                propagation_type: propagation_type@,
                reason: reason@,
            },
            LogEvent::TaskSuspend { timestamp, thread_id, transaction_id, incarnation, suspend_reason, depends_on_tx } => LogEventView::TaskSuspend {
                timestamp: *timestamp,
                thread_id: *thread_id,
                transaction_id: *transaction_id,
                incarnation: *incarnation,
                suspend_reason: suspend_reason@,
                depends_on_tx: *depends_on_tx,
            },
            LogEvent::TaskResume { timestamp, thread_id, transaction_id, incarnation, resume_reason, resolved_by_tx } => LogEventView::TaskResume {
                timestamp: *timestamp,
                thread_id: *thread_id,
                transaction_id: *transaction_id,
                incarnation: *incarnation,
                resume_reason: resume_reason@,
                resolved_by_tx: *resolved_by_tx,
            },
            LogEvent::StallAdd { timestamp, thread_id, transaction_id, incarnation, by_tx, stall_count_after, first_stall } => LogEventView::StallAdd {
                timestamp: *timestamp,
                thread_id: *thread_id,
                transaction_id: *transaction_id,
                incarnation: *incarnation,
                by_tx: *by_tx,
                stall_count_after: *stall_count_after,
                first_stall: *first_stall,
            },
            LogEvent::StallRemove { timestamp, thread_id, transaction_id, incarnation, by_tx, stall_count_after, became_unstalled } => LogEventView::StallRemove {
                timestamp: *timestamp,
                thread_id: *thread_id,
                transaction_id: *transaction_id,
                incarnation: *incarnation,
                by_tx: *by_tx,
                stall_count_after: *stall_count_after,
                became_unstalled: *became_unstalled,
            },
            LogEvent::StallPropagateTick { timestamp, thread_id, source_tx, affected_range, propagated_count, propagation_type } => LogEventView::StallPropagateTick {
                timestamp: *timestamp,
                thread_id: *thread_id,
                source_tx: *source_tx,
                affected_range: affected_range@,
                propagated_count: *propagated_count,
                propagation_type: propagation_type@,
            },
            LogEvent::WaterlineAdvance { timestamp, thread_id, executed_once_max_idx_after, advanced_by_tx, previous_waterline } => LogEventView::WaterlineAdvance {
                timestamp: *timestamp,
                thread_id: *thread_id,
                executed_once_max_idx_after: *executed_once_max_idx_after,
                advanced_by_tx: *advanced_by_tx,
                previous_waterline: *previous_waterline,
            },
            LogEvent::AbortStart { timestamp, thread_id, transaction_id, incarnation, by_tx, result } => LogEventView::AbortStart {
                timestamp: *timestamp,
                thread_id: *thread_id,
                transaction_id: *transaction_id,
                incarnation: *incarnation,
                by_tx: *by_tx,
                result: result@,
            },
            LogEvent::AbortFinish { timestamp, thread_id, transaction_id, incarnation, by_tx, result, new_incarnation } => LogEventView::AbortFinish {
                timestamp: *timestamp,
                thread_id: *thread_id,
                transaction_id: *transaction_id,
                incarnation: *incarnation,
                by_tx: *by_tx,
                result: result@,
                new_incarnation: *new_incarnation,
            },
            LogEvent::InvalidationEdge { timestamp, thread_id, by_tx, to_tx, to_incarnation, key } => LogEventView::InvalidationEdge {
                timestamp: *timestamp,
                thread_id: *thread_id,
                by_tx: *by_tx,
                to_tx: *to_tx,
                to_incarnation: *to_incarnation,
                key: opt_string_view(*key),
            },
            LogEvent::CommitMarkerTransition { timestamp, thread_id, transaction_id, from_marker, to_marker } => LogEventView::CommitMarkerTransition {
                timestamp: *timestamp,
                thread_id: *thread_id,
                transaction_id: *transaction_id,
                from_marker: from_marker@,
                to_marker: to_marker@,
            },
            LogEvent::PostCommitStart { timestamp, thread_id, transaction_id, hook_kind } => LogEventView::PostCommitStart {
                timestamp: *timestamp,
                thread_id: *thread_id,
                transaction_id: *transaction_id,
                hook_kind: hook_kind@,
            },
            LogEvent::PostCommitFinish { timestamp, thread_id, transaction_id, hook_kind, duration_us } => LogEventView::PostCommitFinish {
                timestamp: *timestamp,
                thread_id: *thread_id,
                transaction_id: *transaction_id,
                hook_kind: hook_kind@,
                duration_us: *duration_us,
            },
            LogEvent::ExecutionPhaseTransition { timestamp, thread_id, transaction_id, incarnation, from_phase, to_phase, is_reexecution, first_reexecution_deferred, executed_once_watermark, defer_reason } => LogEventView::ExecutionPhaseTransition {
                timestamp: *timestamp,
                thread_id: *thread_id,
                transaction_id: *transaction_id,
                incarnation: *incarnation,
                from_phase: from_phase@,
                to_phase: to_phase@,
                is_reexecution: *is_reexecution,
                first_reexecution_deferred: *first_reexecution_deferred,
                executed_once_watermark: *executed_once_watermark,
                defer_reason: opt_string_view(*defer_reason),
            },
            LogEvent::TaskPickedV2 { timestamp, picked_ts_us, thread_id, task_kind, tx_index, incarnation, is_first_execution, from_queue } => LogEventView::TaskPickedV2 {
                timestamp: *timestamp,
                picked_ts_us: *picked_ts_us,
                thread_id: *thread_id,
                task_kind: task_kind@,
                tx_index: *tx_index,
                incarnation: *incarnation,
                is_first_execution: *is_first_execution,
                from_queue: from_queue@,
            },
            LogEvent::TaskFinishedV2 { timestamp, finished_ts_us, thread_id, task_kind, tx_index, incarnation, result, processing_time_us, is_reexecution, first_reexecution_deferred, executed_once_watermark, defer_reason } => LogEventView::TaskFinishedV2 {
                timestamp: *timestamp,
                finished_ts_us: *finished_ts_us,
                thread_id: *thread_id,
                task_kind: task_kind@,
                tx_index: *tx_index,
                incarnation: *incarnation,
                result: result@,
                processing_time_us: *processing_time_us,
                is_reexecution: *is_reexecution,
                first_reexecution_deferred: *first_reexecution_deferred,
                executed_once_watermark: *executed_once_watermark,
                defer_reason: opt_string_view(*defer_reason),
            },
            LogEvent::DependencyBlocked { timestamp, thread_id, dependent_tx, on_tx, reason, state_key } => LogEventView::DependencyBlocked {
                timestamp: *timestamp,
                thread_id: *thread_id,
                dependent_tx: *dependent_tx,
                on_tx: *on_tx,
                reason: reason@,
                state_key: opt_string_view(*state_key),
            },
            LogEvent::DependencyUnblocked { timestamp, thread_id, dependent_tx, on_tx, reason, wait_time_us } => LogEventView::DependencyUnblocked {
                timestamp: *timestamp,
                thread_id: *thread_id,
                dependent_tx: *dependent_tx,
                on_tx: *on_tx,
                reason: reason@,
                wait_time_us: *wait_time_us,
            },
            LogEvent::MVReadV2 { timestamp, thread_id, transaction_id, incarnation, key, source, result, writer_tx, writer_incarnation, value_size } => LogEventView::MVReadV2 {
                timestamp: *timestamp,
                thread_id: *thread_id,
                transaction_id: *transaction_id,
                incarnation: *incarnation,
                key: key@,
                source: source@,
                result: result@,
                writer_tx: *writer_tx,
                writer_incarnation: *writer_incarnation,
                value_size: *value_size,
            },
            LogEvent::SystemStallStart { timestamp, thread_id, worker_id, total_workers, reason, scheduler_state, system_stall_count_before, system_stall_count_after, stall_transition } => LogEventView::SystemStallStart {
                timestamp: *timestamp,
                thread_id: *thread_id,
                worker_id: *worker_id,
                total_workers: *total_workers,
                reason: reason@,
                scheduler_state: scheduler_state@,
                system_stall_count_before: *system_stall_count_before,
                system_stall_count_after: *system_stall_count_after,
                stall_transition: stall_transition@,
            },
            LogEvent::SystemStallEnd { timestamp, thread_id, worker_id, total_workers, reason, scheduler_state, system_stall_count_before, system_stall_count_after, stall_transition, duration_us } => LogEventView::SystemStallEnd {
                timestamp: *timestamp,
                thread_id: *thread_id,
                worker_id: *worker_id,
                total_workers: *total_workers,
                reason: reason@,
                scheduler_state: scheduler_state@,
                system_stall_count_before: *system_stall_count_before,
                system_stall_count_after: *system_stall_count_after,
                stall_transition: stall_transition@,
                duration_us: *duration_us,
            },
            LogEvent::TransactionStallAdd { timestamp, thread_id, txn_id, incarnation, by_tx, transaction_stall_count_before, transaction_stall_count_after, first_stall, stall_transition } => LogEventView::TransactionStallAdd {
                timestamp: *timestamp,
                thread_id: *thread_id,
                txn_id: *txn_id,
                incarnation: *incarnation,
                by_tx: *by_tx,
                transaction_stall_count_before: *transaction_stall_count_before,
                transaction_stall_count_after: *transaction_stall_count_after,
                first_stall: *first_stall,
                stall_transition: stall_transition@,
            },
            LogEvent::TransactionStallRemove { timestamp, thread_id, txn_id, incarnation, by_tx, transaction_stall_count_before, transaction_stall_count_after, became_unstalled, stall_transition } => LogEventView::TransactionStallRemove {
                timestamp: *timestamp,
                thread_id: *thread_id,
                txn_id: *txn_id,
                incarnation: *incarnation,
                by_tx: *by_tx,
                transaction_stall_count_before: *transaction_stall_count_before,
                transaction_stall_count_after: *transaction_stall_count_after,
                became_unstalled: *became_unstalled,
                stall_transition: stall_transition@,
            },
        }
    }
}

/// The file that an event belongs in.
pub open spec fn spec_route(e: LogEventView) -> LogFileType {
    match e {
        LogEventView::BlockStart { .. }
        | LogEventView::BlockFinish { .. }
        | LogEventView::SchedulerSample { .. }
        | LogEventView::MemoryUsageSnapshot { .. } => LogFileType::BlockSummary,
        LogEventView::SchedulerStateTransition { .. }
        | LogEventView::TaskPicked { .. }
        | LogEventView::TaskFinished { .. }
        | LogEventView::TaskSuspend { .. }
        | LogEventView::TaskResume { .. }
        | LogEventView::LockContention { .. }
        | LogEventView::StallAdd { .. }
        | LogEventView::StallRemove { .. }
        | LogEventView::StallPropagateTick { .. }
        | LogEventView::WaterlineAdvance { .. }
        | LogEventView::TaskPickedV2 { .. }
        | LogEventView::TaskFinishedV2 { .. } => LogFileType::SchedulerStates,
        LogEventView::MVRead { .. }
        | LogEventView::MVWrite { .. }
        | LogEventView::EstimateMark { .. }
        | LogEventView::EstimateClear { .. }
        | LogEventView::MVReadV2 { .. } => LogFileType::MVHashMapOps,
        LogEventView::DependencyBlock { .. }
        | LogEventView::DependencyResolve { .. }
        | LogEventView::StallPropagation { .. }
        | LogEventView::DependencyBlocked { .. }
        | LogEventView::DependencyUnblocked { .. } => LogFileType::Dependencies,
        LogEventView::ExecutionStart { .. }
        | LogEventView::ExecutionFinish { .. }
        | LogEventView::ValidationStart { .. }
        | LogEventView::ValidationFinish { .. }
        | LogEventView::TransactionOutputDetail { .. }
        | LogEventView::ExecutionPhaseTransition { .. } => LogFileType::ExecutionFlow,
        LogEventView::AbortInitiated { .. }
        | LogEventView::IncarnationIncrement { .. }
        | LogEventView::RescheduleHigher { .. }
        | LogEventView::ValidationConflict { .. }
        | LogEventView::AbortStart { .. }
        | LogEventView::AbortFinish { .. }
        | LogEventView::InvalidationEdge { .. } => LogFileType::AbortRecovery,
        LogEventView::AggregatorOperation { .. }
        | LogEventView::DelayedFieldOperation { .. }
        | LogEventView::ResourceGroupOperation { .. }
        | LogEventView::ReadWriteSetChange { .. } => LogFileType::DetailedOperations,
        LogEventView::ModuleCacheOperation { .. }
        | LogEventView::EventEmission { .. }
        | LogEventView::PerformanceMetric { .. }
        | LogEventView::SchedulerMetric { .. }
        | LogEventView::CommitMarkerTransition { .. }
        | LogEventView::PostCommitStart { .. }
        | LogEventView::PostCommitFinish { .. } => LogFileType::SystemOperations,
        LogEventView::TransactionStallAdd { .. }
        | LogEventView::TransactionStallRemove { .. } => LogFileType::TransactionStalls,
        LogEventView::SystemStallStart { .. }
        | LogEventView::SystemStallEnd { .. } => LogFileType::SystemStalls,
        LogEventView::TransactionStart { .. }
        | LogEventView::TransactionFinish { .. } => LogFileType::Execution,
    }
}

impl LogEvent {
    /// The file that this event belongs in.
    pub fn route(&self) -> (f: LogFileType)
        ensures
            f == spec_route(self@),
    {
        match self {
            LogEvent::BlockStart { .. }
            | LogEvent::BlockFinish { .. }
            | LogEvent::SchedulerSample { .. }
            | LogEvent::MemoryUsageSnapshot { .. } => LogFileType::BlockSummary,
            LogEvent::SchedulerStateTransition { .. }
            | LogEvent::TaskPicked { .. }
            | LogEvent::TaskFinished { .. }
            | LogEvent::TaskSuspend { .. }
            | LogEvent::TaskResume { .. }
            | LogEvent::LockContention { .. }
            | LogEvent::StallAdd { .. }
            | LogEvent::StallRemove { .. }
            | LogEvent::StallPropagateTick { .. }
            | LogEvent::WaterlineAdvance { .. }
            | LogEvent::TaskPickedV2 { .. }
            | LogEvent::TaskFinishedV2 { .. } => LogFileType::SchedulerStates,
            LogEvent::MVRead { .. }
            | LogEvent::MVWrite { .. }
            | LogEvent::EstimateMark { .. }
            | LogEvent::EstimateClear { .. }
            | LogEvent::MVReadV2 { .. } => LogFileType::MVHashMapOps,
            LogEvent::DependencyBlock { .. }
            | LogEvent::DependencyResolve { .. }
            | LogEvent::StallPropagation { .. }
            | LogEvent::DependencyBlocked { .. }
            | LogEvent::DependencyUnblocked { .. } => LogFileType::Dependencies,
            LogEvent::ExecutionStart { .. }
            | LogEvent::ExecutionFinish { .. }
            | LogEvent::ValidationStart { .. }
            | LogEvent::ValidationFinish { .. }
            | LogEvent::TransactionOutputDetail { .. }
            | LogEvent::ExecutionPhaseTransition { .. } => LogFileType::ExecutionFlow,
            LogEvent::AbortInitiated { .. }
            | LogEvent::IncarnationIncrement { .. }
            | LogEvent::RescheduleHigher { .. }
            | LogEvent::ValidationConflict { .. }
            | LogEvent::AbortStart { .. }
            | LogEvent::AbortFinish { .. }
            | LogEvent::InvalidationEdge { .. } => LogFileType::AbortRecovery,
            LogEvent::AggregatorOperation { .. }
            | LogEvent::DelayedFieldOperation { .. }
            | LogEvent::ResourceGroupOperation { .. }
            | LogEvent::ReadWriteSetChange { .. } => LogFileType::DetailedOperations,
            LogEvent::ModuleCacheOperation { .. }
            | LogEvent::EventEmission { .. }
            | LogEvent::PerformanceMetric { .. }
            | LogEvent::SchedulerMetric { .. }
            | LogEvent::CommitMarkerTransition { .. }
            | LogEvent::PostCommitStart { .. }
            | LogEvent::PostCommitFinish { .. } => LogFileType::SystemOperations,
            LogEvent::TransactionStallAdd { .. }
            | LogEvent::TransactionStallRemove { .. } => LogFileType::TransactionStalls,
            LogEvent::SystemStallStart { .. }
            | LogEvent::SystemStallEnd { .. } => LogFileType::SystemStalls,
            LogEvent::TransactionStart { .. }
            | LogEvent::TransactionFinish { .. } => LogFileType::Execution,
        }
    }
}

/// A line of the stall event file that records one stall or unstall.
pub struct StallDetail {
    /// "StallAdd" or "StallRemove".
    pub event_type: String,
    /// Microseconds since the Unix epoch.
    pub timestamp_us: u64,
    pub thread_id: u64,
    pub txn_id: TxnIndex,
    pub incarnation: Incarnation,
    pub by_tx: TxnIndex,
    pub stall_count_before: u32,
    pub stall_count_after: u32,
    /// Present for a stall.
    pub first_stall: Option<bool>,
    /// Present for an unstall.
    pub became_unstalled: Option<bool>,
    /// Present for a stall or an unstall.
    pub stall_transition: Option<String>,
}

/// The value of a [`StallDetail`].
pub ghost struct StallDetailView {
    pub event_type: Seq<char>,
    pub timestamp_us: u64,
    pub thread_id: u64,
    pub txn_id: TxnIndex,
    pub incarnation: Incarnation,
    pub by_tx: TxnIndex,
    pub stall_count_before: u32,
    pub stall_count_after: u32,
    pub first_stall: Option<bool>,
    pub became_unstalled: Option<bool>,
    pub stall_transition: Option<Seq<char>>,
}

impl View for StallDetail {
    type V = StallDetailView;

    open spec fn view(&self) -> StallDetailView {
        StallDetailView {
            event_type: self.event_type@,
            timestamp_us: self.timestamp_us,
            thread_id: self.thread_id,
            txn_id: self.txn_id,
            incarnation: self.incarnation,
            by_tx: self.by_tx,
            stall_count_before: self.stall_count_before,
            stall_count_after: self.stall_count_after,
            first_stall: self.first_stall,
            became_unstalled: self.became_unstalled,
            stall_transition: opt_string_view(self.stall_transition),
        }
    }
}

/// A line of the stall event file that records how long a stall lasted.
pub struct StallDuration {
    /// Microseconds since the Unix epoch when the stall ended.
    pub timestamp_us: u64,
    pub thread_id: u64,
    pub txn_id: TxnIndex,
    /// The incarnation whose stall start was found.
    pub matched_incarnation: Incarnation,
    /// The incarnation that was asked for.
    pub original_incarnation: Option<Incarnation>,
    /// "exact", "fallback" or "notfound".
    pub match_type: String,
    pub start_timestamp_us: u64,
    pub end_timestamp_us: u64,
    /// Length of the stall, in nanoseconds.
    pub stall_duration_ns: u64,
    /// Whether a stall start was found.
    pub incarnation_match_success: bool,
}

/// The value of a [`StallDuration`].
pub ghost struct StallDurationView {
    pub timestamp_us: u64,
    pub thread_id: u64,
    pub txn_id: TxnIndex,
    pub matched_incarnation: Incarnation,
    pub original_incarnation: Option<Incarnation>,
    pub match_type: Seq<char>,
    pub start_timestamp_us: u64,
    pub end_timestamp_us: u64,
    pub stall_duration_ns: u64,
    pub incarnation_match_success: bool,
}

impl View for StallDuration {
    type V = StallDurationView;

    open spec fn view(&self) -> StallDurationView {
        StallDurationView {
            timestamp_us: self.timestamp_us,
            thread_id: self.thread_id,
            txn_id: self.txn_id,
            matched_incarnation: self.matched_incarnation,
            original_incarnation: self.original_incarnation,
            match_type: self.match_type@,
            start_timestamp_us: self.start_timestamp_us,
            end_timestamp_us: self.end_timestamp_us,
            stall_duration_ns: self.stall_duration_ns,
            incarnation_match_success: self.incarnation_match_success,
        }
    }
}

/// One line of a log file.
pub enum LogLine {
    Event(LogEvent),
    StallDetail(StallDetail),
    StallDuration(StallDuration),
}

/// The value of a [`LogLine`].
pub ghost enum LineView {
    Event(LogEventView),
    StallDetail(StallDetailView),
    StallDuration(StallDurationView),
}

impl View for LogLine {
    type V = LineView;

    open spec fn view(&self) -> LineView {
        match self {
            LogLine::Event(e) => LineView::Event(e@),
            LogLine::StallDetail(d) => LineView::StallDetail(d@),
            LogLine::StallDuration(d) => LineView::StallDuration(d@),
        }
    }
}

/// A line together with the file it is written to.
pub struct LogRecord {
    pub file: LogFileType,
    pub line: LogLine,
}

impl View for LogRecord {
    type V = (LogFileType, LineView);

    open spec fn view(&self) -> (LogFileType, LineView) {
        (self.file, self.line@)
    }
}

/// The views of a sequence of records.
pub open spec fn records_view(v: Seq<LogRecord>) -> Seq<(LogFileType, LineView)> {
    v.map_values(|r: LogRecord| r@)
}

/// The stall detail line of a stall (`event_type` "StallAdd"), an unstall
/// ("StallRemove"), or another kind of event.
pub open spec fn stall_detail_line(
    event_type: Seq<char>,
    txn_id: TxnIndex,
    incarnation: Incarnation,
    by_tx: TxnIndex,
    stall_count_after: u32,
    first_stall: bool,
    became_unstalled: bool,
    at: Moment,
) -> StallDetailView {
    let is_add = event_type == "StallAdd"@;
    let is_remove = !is_add && event_type == "StallRemove"@;
    StallDetailView {
        event_type,
        timestamp_us: at.wall_clock_us,
        thread_id: at.thread_id,
        txn_id,
        incarnation,
        by_tx,
        stall_count_before: if is_add {
            if stall_count_after == 0 {
                0
            } else {
                (stall_count_after - 1) as u32
            }
        } else {
            (stall_count_after + 1) as u32
        },
        stall_count_after,
        first_stall: if is_add {
            Some(first_stall)
        } else {
            None
        },
        became_unstalled: if is_remove {
            Some(became_unstalled)
        } else {
            None
        },
        stall_transition: if is_add {
            Some(
                if first_stall {
                    "UNSTALLED_TO_STALLED"@
                } else {
                    "STALLED_TO_MORE_STALLED"@
                },
            )
        } else if is_remove {
            Some(
                if became_unstalled {
                    "STALLED_TO_UNSTALLED"@
                } else {
                    "MORE_STALLED_TO_STALLED"@
                },
            )
        } else {
            None
        },
    }
}

/// The stall duration line of a stall of `txn_id` that ran on the monotonic
/// clock from `start_ns` to `end_ns` and lasted `stall_duration_ns`.
pub open spec fn stall_duration_line(
    txn_id: TxnIndex,
    matched_incarnation: Incarnation,
    start_ns: u64,
    end_ns: u64,
    stall_duration_ns: u64,
    original_incarnation: Option<Incarnation>,
    match_type: Seq<char>,
    at: Moment,
) -> StallDurationView {
    StallDurationView {
        timestamp_us: at.wall_clock_us,
        thread_id: at.thread_id,
        txn_id,
        matched_incarnation,
        original_incarnation,
        match_type,
        start_timestamp_us: (at.wall_clock_us - micros_between(start_ns, end_ns)) as u64,
        end_timestamp_us: at.wall_clock_us,
        stall_duration_ns,
        incarnation_match_success: match_type != "notfound"@,
    }
}

/// Whether `s` holds a stall start of incarnation `inc` of transaction `txn`.
pub open spec fn has_stall_start(s: Seq<StallStart>, txn: TxnIndex, inc: Incarnation) -> bool {
    exists|i: int| 0 <= i < s.len() && #[trigger] s[i].txn_id == txn && s[i].incarnation == inc
}

/// The position of the stall start of incarnation `inc` of transaction `txn`.
pub open spec fn stall_start_index(s: Seq<StallStart>, txn: TxnIndex, inc: Incarnation) -> int {
    choose|i: int| 0 <= i < s.len() && #[trigger] s[i].txn_id == txn && s[i].incarnation == inc
}

/// The first position of a stall start of transaction `txn`, of any incarnation.
pub open spec fn first_stall_start_of(s: Seq<StallStart>, txn: TxnIndex) -> Option<int> {
    if exists|i: int| 0 <= i < s.len() && #[trigger] s[i].txn_id == txn {
        Some(
            choose|i: int|
                0 <= i < s.len() && #[trigger] s[i].txn_id == txn && forall|j: int|
                    0 <= j < i ==> s[j].txn_id != txn,
        )
    } else {
        None
    }
}

/// No incarnation has two stall starts.
pub open spec fn stall_keys_unique(s: Seq<StallStart>) -> bool {
    forall|i: int, j: int|
        0 <= i < j < s.len() ==> !(#[trigger] s[i].txn_id == #[trigger] s[j].txn_id && s[i].incarnation
            == s[j].incarnation)
}

/// No task kind has two entries.
pub open spec fn task_keys_unique(s: Seq<(Seq<char>, u32)>) -> bool {
    forall|i: int, j: int| 0 <= i < j < s.len() ==> #[trigger] s[i].0 != #[trigger] s[j].0
}

/// The value of a [`BlockSTMLogger`]: its configuration, the files it has
/// open, its execution context, its statistics, and the lines it has decided
/// to write and not yet handed out.
pub ghost struct LoggerView {
    pub config: LoggingConfig,
    pub open_files: Seq<LogFileType>,
    pub context: ExecutionContextView,
    pub stats: BlockExecutionStatsView,
    pub sep: SeparatedStallStatisticsView,
    pub pending: Seq<(LogFileType, LineView)>,
}

impl LoggerView {
    /// The invariant of a logger: one stall start per incarnation, one entry
    /// per task kind, at most a thousand concurrency samples, the total of
    /// stall events equal (modulo 2^32) to the transaction-level and
    /// system-level stalls together, no file open where logging is disabled,
    /// and only the files that an enabled logger opens.
    pub open spec fn wf(self) -> bool {
        &&& stall_keys_unique(self.stats.stall_start_times)
        &&& task_keys_unique(self.stats.task_distribution)
        &&& self.stats.concurrent_execution_samples.len() <= 1000
        &&& self.sep.total_stall_events == add_u32(self.sep.transaction_stalls, self.sep.system_stalls)
        &&& !self.config.enabled ==> self.open_files.len() == 0
        &&& forall|i: int|
            0 <= i < self.open_files.len() ==> opened_file_types().contains(
                #[trigger] self.open_files[i],
            )
    }

    /// Whether an event of `level` that belongs in `file` is written.
    pub open spec fn accepts(self, level: LogLevel, file: LogFileType) -> bool {
        &&& self.config.enabled
        &&& level_rank(level) >= level_rank(self.config.log_level)
        &&& self.open_files.contains(file)
    }

    /// What logging event `e` at `level` adds to the lines.
    pub open spec fn emission(self, e: LogEventView, level: LogLevel) -> Seq<(LogFileType, LineView)> {
        if self.accepts(level, spec_route(e)) {
            seq![(spec_route(e), LineView::Event(e))]
        } else {
            Seq::empty()
        }
    }

    /// The logger after event `e` at `level` is also written to `file`, the
    /// per-kind log file that keeps a copy of it.
    pub open spec fn log_to(self, e: LogEventView, level: LogLevel, file: LogFileType) -> LoggerView {
        if self.accepts(level, file) {
            LoggerView { pending: self.pending.push((file, LineView::Event(e))), ..self }
        } else {
            self
        }
    }

    /// The logger after logging event `e` at `level`.
    pub open spec fn log(self, e: LogEventView, level: LogLevel) -> LoggerView {
        LoggerView { pending: self.pending + self.emission(e, level), ..self }
    }

    /// The logger after writing `line` straight to the stall event file, which
    /// happens whenever that file is open.
    pub open spec fn write_stall_line(self, line: LineView) -> LoggerView {
        if self.open_files.contains(LogFileType::StallEvents) {
            LoggerView { pending: self.pending.push((LogFileType::StallEvents, line)), ..self }
        } else {
            self
        }
    }

    /// The logger with `stats` as its execution statistics.
    pub open spec fn with_stats(self, stats: BlockExecutionStatsView) -> LoggerView {
        LoggerView { stats, ..self }
    }

    /// The logger with `sep` as its separated stall statistics.
    pub open spec fn with_sep(self, sep: SeparatedStallStatisticsView) -> LoggerView {
        LoggerView { sep, ..self }
    }

    /// The logger after thread `t` is recorded as taking part.
    pub open spec fn record_thread(self, t: u64) -> LoggerView {
        self.with_stats(
            BlockExecutionStatsView {
                participating_threads: self.stats.participating_threads.insert(t),
                ..self.stats
            },
        )
    }

    /// The logger after the largest number of concurrent executions is raised
    /// to `c` where that is larger.
    pub open spec fn raise_max_concurrency(self, c: u32) -> LoggerView {
        self.with_stats(
            BlockExecutionStatsView {
                max_concurrent_executions: if c > self.stats.max_concurrent_executions {
                    c
                } else {
                    self.stats.max_concurrent_executions
                },
                ..self.stats
            },
        )
    }

    /// The logger after one more stall event is counted.
    pub open spec fn count_stall_event(self) -> LoggerView {
        self.with_stats(
            BlockExecutionStatsView {
                stall_events_count: add_u32(self.stats.stall_events_count, 1),
                ..self.stats
            },
        )
    }

    /// The logger after `ns` more nanoseconds of stall time are counted.
    pub open spec fn add_stall_time(self, ns: u64) -> LoggerView {
        self.with_stats(
            BlockExecutionStatsView {
                total_stall_time_ns: add_u64(self.stats.total_stall_time_ns, ns),
                ..self.stats
            },
        )
    }

    /// The logger after the stall start of incarnation `inc` of `txn` is set to `now`.
    pub open spec fn set_stall_start(self, txn: TxnIndex, inc: Incarnation, now: u64) -> LoggerView {
        let s = self.stats.stall_start_times;
        let entry = StallStart { txn_id: txn, incarnation: inc, start_ns: now };
        self.with_stats(
            BlockExecutionStatsView {
                stall_start_times: if has_stall_start(s, txn, inc) {
                    s.update(stall_start_index(s, txn, inc), entry)
                } else {
                    s.push(entry)
                },
                ..self.stats
            },
        )
    }

    /// The logger after the stall start at position `i` is dropped.
    pub open spec fn drop_stall_start(self, i: int) -> LoggerView {
        self.with_stats(
            BlockExecutionStatsView {
                stall_start_times: self.stats.stall_start_times.remove(i),
                ..self.stats
            },
        )
    }

    /// The logger after one more transaction-level stall is counted.
    pub open spec fn count_transaction_stall(self) -> LoggerView {
        self.with_sep(
            SeparatedStallStatisticsView {
                transaction_stalls: (self.sep.transaction_stalls + 1) as u32,
                total_stall_events: add_u32(self.sep.total_stall_events, 1),
                ..self.sep
            },
        )
    }

    /// The logger after one more stall of transaction `txn` is counted.
    pub open spec fn count_transaction_stall_of(self, txn: u32) -> LoggerView {
        let m = self.sep.transaction_stall_count_by_txn;
        let c = if m.contains_key(txn) {
            m[txn]
        } else {
            0
        };
        self.with_sep(
            SeparatedStallStatisticsView {
                transaction_stall_count_by_txn: m.insert(txn, (c + 1) as u32),
                ..self.sep
            },
        )
    }

    /// The logger after `us` more microseconds of transaction-level stalls.
    pub open spec fn add_transaction_stall_duration(self, us: u64) -> LoggerView {
        self.with_sep(
            SeparatedStallStatisticsView {
                transaction_stall_duration_total_us: add_u64(
                    self.sep.transaction_stall_duration_total_us,
                    us,
                ),
                ..self.sep
            },
        )
    }

    /// The logger after one more system-level stall is counted.
    pub open spec fn count_system_stall(self) -> LoggerView {
        self.with_sep(
            SeparatedStallStatisticsView {
                system_stalls: (self.sep.system_stalls + 1) as u32,
                total_stall_events: add_u32(self.sep.total_stall_events, 1),
                ..self.sep
            },
        )
    }

    /// The logger after one more stall of worker `worker` is counted.
    pub open spec fn count_system_stall_of(self, worker: u32) -> LoggerView {
        let m = self.sep.system_stall_count_by_worker;
        let c = if m.contains_key(worker) {
            m[worker]
        } else {
            0
        };
        self.with_sep(
            SeparatedStallStatisticsView {
                system_stall_count_by_worker: m.insert(worker, (c + 1) as u32),
                ..self.sep
            },
        )
    }

    /// The logger after `us` more microseconds of system-level stalls.
    pub open spec fn add_system_stall_duration(self, us: u64) -> LoggerView {
        self.with_sep(
            SeparatedStallStatisticsView {
                system_stall_duration_total_us: add_u64(self.sep.system_stall_duration_total_us, us),
                ..self.sep
            },
        )
    }

    /// The logger after a system-level stall of `worker` starts at `now`.
    pub open spec fn start_system_stall(self, worker: u32, now: u64) -> LoggerView {
        self.with_sep(
            SeparatedStallStatisticsView {
                system_stall_start_times: self.sep.system_stall_start_times.insert(worker, now),
                ..self.sep
            },
        )
    }

    /// How long the ongoing system-level stall of `worker` has lasted at
    /// `now`, in microseconds, if one is ongoing.
    pub open spec fn system_stall_length(self, worker: u32, now: u64) -> Option<u64> {
        let m = self.sep.system_stall_start_times;
        if m.contains_key(worker) {
            Some(micros_between(m[worker], now))
        } else {
            None
        }
    }

    /// The logger after the system-level stall of `worker` ends at `now`.
    pub open spec fn end_system_stall(self, worker: u32, now: u64) -> LoggerView {
        match self.system_stall_length(worker, now) {
            Some(d) => self.with_sep(
                SeparatedStallStatisticsView {
                    system_stall_start_times: self.sep.system_stall_start_times.remove(worker),
                    ..self.sep
                },
            ).add_system_stall_duration(d),
            None => self,
        }
    }

    /// The logger after the separated stall statistics are reset at `now`.
    pub open spec fn reset_separated(self, now: u64) -> LoggerView {
        self.with_sep(reset_stall_stats(Some(now)))
    }

    /// The logger after all stall statistics are reset at `now`.
    pub open spec fn reset_stalls(self, now: u64) -> LoggerView {
        self.with_stats(
            BlockExecutionStatsView {
                stall_events_count: 0,
                total_stall_time_ns: 0,
                stall_start_times: Seq::empty(),
                ..self.stats
            },
        ).reset_separated(now)
    }

    /// The logger after a transaction-level stall of incarnation `inc` of
    /// `txn`, caused by `by_tx`, is logged.
    pub open spec fn transaction_stall_add(
        self,
        txn: TxnIndex,
        inc: Incarnation,
        by_tx: TxnIndex,
        first_stall: bool,
        at: Moment,
    ) -> LoggerView {
        let before = self.sep.transaction_stalls;
        let logged = self.count_transaction_stall().count_transaction_stall_of(txn).log(
            LogEventView::TransactionStallAdd {
                timestamp: at.timestamp_us,
                thread_id: at.thread_id,
                txn_id: txn,
                incarnation: inc,
                by_tx,
                transaction_stall_count_before: before,
                transaction_stall_count_after: (before + 1) as u32,
                first_stall,
                stall_transition: "UNSTALLED_TO_STALLED"@,
            },
            LogLevel::Debug,
        );
        if first_stall {
            logged.set_stall_start(txn, inc, at.monotonic_ns)
        } else {
            logged
        }
    }

    /// The logger after the event of a transaction-level unstall of
    /// incarnation `inc` of `txn`, caused by `by_tx`, is logged.
    pub open spec fn transaction_unstall_event(
        self,
        txn: TxnIndex,
        inc: Incarnation,
        by_tx: TxnIndex,
        became_unstalled: bool,
        at: Moment,
    ) -> LoggerView {
        let before = self.sep.transaction_stalls;
        self.log(
            LogEventView::TransactionStallRemove {
                timestamp: at.timestamp_us,
                thread_id: at.thread_id,
                txn_id: txn,
                incarnation: inc,
                by_tx,
                transaction_stall_count_before: before,
                transaction_stall_count_after: if before == 0 {
                    0
                } else {
                    (before - 1) as u32
                },
                became_unstalled,
                stall_transition: "STALLED_TO_UNSTALLED"@,
            },
            LogLevel::Debug,
        )
    }

    /// The logger after the time since the stall start of incarnation `inc`
    /// of `txn`, where there is one, is counted as transaction-level stall
    /// time; the start itself stays.
    pub open spec fn note_unstall_duration(self, txn: TxnIndex, inc: Incarnation, at: Moment) -> LoggerView {
        let s = self.stats.stall_start_times;
        if has_stall_start(s, txn, inc) {
            self.add_transaction_stall_duration(
                micros_between(s[stall_start_index(s, txn, inc)].start_ns, at.monotonic_ns),
            )
        } else {
            self
        }
    }

    /// The logger after a transaction-level unstall of incarnation `inc` of
    /// `txn`, caused by `by_tx`, is logged: where the transaction became
    /// unstalled, the stall start of that incarnation is taken and the time
    /// since it counted.
    pub open spec fn transaction_stall_remove(
        self,
        txn: TxnIndex,
        inc: Incarnation,
        by_tx: TxnIndex,
        became_unstalled: bool,
        at: Moment,
    ) -> LoggerView {
        let logged = self.transaction_unstall_event(txn, inc, by_tx, became_unstalled, at);
        let s = logged.stats.stall_start_times;
        if became_unstalled && has_stall_start(s, txn, inc) {
            logged.note_unstall_duration(txn, inc, at).drop_stall_start(stall_start_index(s, txn, inc))
        } else {
            logged
        }
    }

    /// The position of the stall start that ends the stall of incarnation
    /// `inc` of `txn`: that of the incarnation, else the first of the
    /// transaction.
    pub open spec fn unstall_start(self, txn: TxnIndex, inc: Incarnation) -> Option<int> {
        let starts = self.stats.stall_start_times;
        if has_stall_start(starts, txn, inc) {
            Some(stall_start_index(starts, txn, inc))
        } else {
            first_stall_start_of(starts, txn)
        }
    }

    /// Whether the length of the stall of incarnation `inc` of `txn`, ending
    /// at `at`, fits below the wall clock, in microseconds.
    pub open spec fn unstall_fits(self, txn: TxnIndex, inc: Incarnation, at: Moment) -> bool {
        match self.unstall_start(txn, inc) {
            Some(i) => micros_between(self.stats.stall_start_times[i].start_ns, at.monotonic_ns)
                <= at.wall_clock_us,
            None => true,
        }
    }

    /// The logger after a stall of incarnation `inc` of `txn` is logged.
    pub open spec fn stall_add(
        self,
        txn: TxnIndex,
        inc: Incarnation,
        by_tx: TxnIndex,
        stall_count_after: u32,
        first_stall: bool,
        at: Moment,
    ) -> LoggerView {
        let s1 = self.transaction_stall_add(txn, inc, by_tx, first_stall, at).count_stall_event().write_stall_line(
            LineView::StallDetail(
                stall_detail_line(
                    "StallAdd"@,
                    txn,
                    inc,
                    by_tx,
                    stall_count_after,
                    first_stall,
                    false,
                    at,
                ),
            ),
        );
        let s2 = if first_stall {
            s1.set_stall_start(txn, inc, at.monotonic_ns)
        } else {
            s1
        };
        s2.log(
            LogEventView::StallAdd {
                timestamp: at.timestamp_us,
                thread_id: at.thread_id,
                transaction_id: txn,
                incarnation: inc,
                by_tx,
                stall_count_after,
                first_stall,
            },
            LogLevel::Debug,
        )
    }

    /// The logger after the stall start at position `i` is taken as the start
    /// of the stall of `txn` that ends now (match kind `match_type`).
    pub open spec fn close_stall(
        self,
        i: int,
        txn: TxnIndex,
        inc: Incarnation,
        match_type: Seq<char>,
        at: Moment,
    ) -> LoggerView {
        let e = self.stats.stall_start_times[i];
        let ns = nanos_between(e.start_ns, at.monotonic_ns);
        self.drop_stall_start(i).add_stall_time(ns).write_stall_line(
            LineView::StallDuration(
                stall_duration_line(
                    txn,
                    e.incarnation,
                    e.start_ns,
                    at.monotonic_ns,
                    ns,
                    Some(inc),
                    match_type,
                    at,
                ),
            ),
        )
    }

    /// The logger after the stall of incarnation `inc` of `txn` ends at `at`:
    /// the stall start of that incarnation is taken ("exact"), else the first
    /// one of the transaction ("fallback"); where there is none, a duration
    /// line of length zero is written ("notfound").
    pub open spec fn finish_stall(self, txn: TxnIndex, inc: Incarnation, at: Moment) -> LoggerView {
        let starts = self.stats.stall_start_times;
        if has_stall_start(starts, txn, inc) {
            self.close_stall(stall_start_index(starts, txn, inc), txn, inc, "exact"@, at)
        } else {
            match first_stall_start_of(starts, txn) {
                Some(i) => self.close_stall(i, txn, inc, "fallback"@, at),
                None => self.write_stall_line(
                    LineView::StallDuration(
                        stall_duration_line(
                            txn,
                            inc,
                            at.monotonic_ns,
                            at.monotonic_ns,
                            0,
                            Some(inc),
                            "notfound"@,
                            at,
                        ),
                    ),
                ),
            }
        }
    }

    /// The logger after an unstall of incarnation `inc` of `txn` is logged.
    pub open spec fn stall_remove(
        self,
        txn: TxnIndex,
        inc: Incarnation,
        by_tx: TxnIndex,
        stall_count_after: u32,
        became_unstalled: bool,
        at: Moment,
    ) -> LoggerView {
        let s1 = self.transaction_unstall_event(txn, inc, by_tx, became_unstalled, at).write_stall_line(
            LineView::StallDetail(
                stall_detail_line(
                    "StallRemove"@,
                    txn,
                    inc,
                    by_tx,
                    stall_count_after,
                    false,
                    became_unstalled,
                    at,
                ),
            ),
        );
        let s2 = if became_unstalled {
            s1.note_unstall_duration(txn, inc, at).finish_stall(txn, inc, at)
        } else {
            s1
        };
        s2.log(
            LogEventView::StallRemove {
                timestamp: at.timestamp_us,
                thread_id: at.thread_id,
                transaction_id: txn,
                incarnation: inc,
                by_tx,
                stall_count_after,
                became_unstalled,
            },
            LogLevel::Debug,
        )
    }

    /// The logger after the start of a system-level stall of `worker` is logged.
    pub open spec fn system_stall_start(
        self,
        worker: u32,
        total_workers: u32,
        reason: Seq<char>,
        at: Moment,
    ) -> LoggerView {
        let before = self.sep.system_stalls;
        self.count_system_stall().count_system_stall_of(worker).start_system_stall(
            worker,
            at.monotonic_ns,
        ).log(
            LogEventView::SystemStallStart {
                timestamp: at.timestamp_us,
                thread_id: at.thread_id,
                worker_id: worker,
                total_workers,
                reason,
                scheduler_state: "ALL_TRANSACTIONS_WAITING"@,
                system_stall_count_before: before,
                system_stall_count_after: (before + 1) as u32,
                stall_transition: "ACTIVE_TO_STALLED"@,
            },
            LogLevel::Debug,
        )
    }

    /// The logger after the end of a system-level stall of `worker` is logged.
    pub open spec fn system_stall_end(
        self,
        worker: u32,
        total_workers: u32,
        reason: Seq<char>,
        at: Moment,
    ) -> LoggerView {
        let before = self.sep.system_stalls;
        let d = match self.system_stall_length(worker, at.monotonic_ns) {
            Some(d) => d,
            None => 0,
        };
        self.end_system_stall(worker, at.monotonic_ns).log(
            LogEventView::SystemStallEnd {
                timestamp: at.timestamp_us,
                thread_id: at.thread_id,
                worker_id: worker,
                total_workers,
                reason,
                scheduler_state: "TASK_DISPATCHED"@,
                system_stall_count_before: before,
                system_stall_count_after: if before == 0 {
                    0
                } else {
                    (before - 1) as u32
                },
                stall_transition: "STALLED_TO_ACTIVE"@,
                duration_us: d,
            },
            LogLevel::Debug,
        )
    }
}

/// Whether the numbers of `s` strictly increase.
pub open spec fn strictly_increasing(s: Seq<u64>) -> bool {
    forall|i: int, j: int| 0 <= i < j < s.len() ==> s[i] < s[j]
}

/// The position of the entry of task kind `name`, if there is one.
pub open spec fn task_index(s: Seq<(Seq<char>, u32)>, name: Seq<char>) -> Option<int> {
    if exists|i: int| 0 <= i < s.len() && #[trigger] s[i].0 == name {
        Some(choose|i: int| 0 <= i < s.len() && #[trigger] s[i].0 == name)
    } else {
        None
    }
}

/// The task counts after one more task of kind `name`.
pub open spec fn count_task(s: Seq<(Seq<char>, u32)>, name: Seq<char>) -> Seq<(Seq<char>, u32)> {
    match task_index(s, name) {
        Some(i) => s.update(i, (name, (s[i].1 + 1) as u32)),
        None => s.push((name, 1)),
    }
}

/// The concurrency samples after sample `c`: at most a thousand are kept; past
/// that, only the first five hundred remain.
pub open spec fn add_sample(s: Seq<u32>, c: u32) -> Seq<u32> {
    let t = s.push(c);
    if t.len() > 1000 {
        t.take(500)
    } else {
        t
    }
}

/// The statistics of a transaction whose execution starts at `now` with
/// incarnation `inc`, given what was recorded before (if anything).
pub open spec fn started_stats(
    m: Map<u32, TransactionStatsView>,
    txn: u32,
    inc: u32,
    now: u64,
) -> TransactionStatsView {
    let prev = if m.contains_key(txn) {
        m[txn]
    } else {
        default_transaction_stats()
    };
    TransactionStatsView {
        start_time: Some(now),
        first_execution: inc == 1,
        reexecution_count: if inc > 1 {
            (prev.reexecution_count + 1) as u32
        } else {
            prev.reexecution_count
        },
        ..prev
    }
}

/// The statistics of a transaction whose execution finishes at `now`.
pub open spec fn finished_stats(prev: TransactionStatsView, now: u64) -> TransactionStatsView {
    TransactionStatsView {
        execution_time_us: match prev.start_time {
            Some(s) => micros_between(s, now),
            None => prev.execution_time_us,
        },
        task_kind: "Execute"@,
        ..prev
    }
}

/// Errors of the initialisation of the global logger.
pub enum InitError {
    /// Creating the log directory or opening the log files failed, with the
    /// error of that failure.
    Io(std::io::Error),
    /// A global logger was set up before.
    AlreadyExists(String),
}

/// The counts and totals of the separated stall statistics.
#[derive(Debug, Clone, Copy, PartialEq, Eq, Structural)]
pub struct StallCounts {
    pub transaction_stalls: u32,
    pub system_stalls: u32,
    pub total_stalls: u32,
    pub transaction_stall_duration_total_us: u64,
    pub system_stall_duration_total_us: u64,
}

/// Thread-safe logger for Block-STM events, with the execution statistics it
/// collects.
pub struct BlockSTMLogger {
    config: LoggingConfig,
    open_files: Vec<LogFileType>,
    execution_context: ExecutionContext,
    execution_stats: BlockExecutionStats,
    separated_stall_stats: SeparatedStallStatistics,
    pending: Vec<LogRecord>,
}

impl View for BlockSTMLogger {
    type V = LoggerView;

    closed spec fn view(&self) -> LoggerView {
        LoggerView {
            config: self.config,
            open_files: self.open_files@,
            context: self.execution_context@,
            stats: self.execution_stats@,
            sep: self.separated_stall_stats@,
            pending: records_view(self.pending@),
        }
    }
}

/// Inserts `t` into the strictly increasing `v`, where it is missing.
fn insert_sorted(v: &mut Vec<u64>, t: u64)
    requires
        strictly_increasing(old(v)@),
    ensures
        strictly_increasing(final(v)@),
        final(v)@.to_set() == old(v)@.to_set().insert(t),
{
    let mut i: usize = 0;
    while i < v.len() && v[i] < t
        invariant
            i <= v@.len(),
            forall|j: int| 0 <= j < i ==> v@[j] < t,
        decreases v@.len() - i,
    {
        i = i + 1;
    }
    if i < v.len() && v[i] == t {
        assert(v@.to_set().insert(t) =~= v@.to_set()) by {
            assert(v@.contains(t)) by {
                assert(v@[i as int] == t);
            }
        }
        return ;
    }
    let ghost pre = v@;
    v.insert(i, t);
    assert(v@ =~= pre.take(i as int).push(t) + pre.skip(i as int));
    assert forall|a: int, b: int| 0 <= a < b < v@.len() implies v@[a] < v@[b] by {
        if b < i {
        } else if b == i {
        } else if a < i {
            assert(pre[i as int] > t || pre[i as int] == t);
            assert(v@[b] == pre[b - 1]);
            if i < b - 1 {
                assert(pre[i as int] < pre[b - 1]);
            }
        } else if a == i {
            assert(v@[b] == pre[b - 1]);
            if i < b - 1 {
                assert(pre[i as int] < pre[b - 1]);
            }
        } else {
            assert(v@[a] == pre[a - 1]);
            assert(v@[b] == pre[b - 1]);
        }
    }
    assert(v@.to_set() =~= pre.to_set().insert(t)) by {
        assert forall|x: u64| v@.to_set().contains(x) implies pre.to_set().insert(t).contains(x) by {
            let k = choose|k: int| 0 <= k < v@.len() && v@[k] == x;
            if k < i {
                assert(pre[k] == x);
            } else if k > i {
                assert(pre[k - 1] == x);
            }
        }
        assert forall|x: u64| pre.to_set().insert(t).contains(x) implies v@.to_set().contains(x) by {
            if x == t {
                assert(v@[i as int] == t);
            } else {
                let k = choose|k: int| 0 <= k < pre.len() && pre[k] == x;
                if k < i {
                    assert(v@[k] == x);
                } else {
                    assert(v@[k + 1] == x);
                }
            }
        }
    }
}

impl BlockSTMLogger {
    /// The invariant of the logger.
    pub closed spec fn wf(&self) -> bool {
        self@.wf()
    }

    /// Creates a logger with the given configuration and execution context; an
    /// enabled logger opens every kind of file, a disabled one none.
    pub fn new(config: LoggingConfig, context: ExecutionContext) -> (r: Self)
        ensures
            r.wf(),
            r@ == (LoggerView {
                config,
                open_files: if config.enabled {
                    opened_file_types()
                } else {
                    Seq::empty()
                },
                context: context@,
                stats: empty_execution_stats(),
                sep: reset_stall_stats(None),
                pending: Seq::empty(),
            }),
    {
        let mut open_files: Vec<LogFileType> = Vec::new();
        if config.enabled {
            open_files = opened_file_kinds();
            assert forall|i: int| 0 <= i < open_files@.len() implies opened_file_types().contains(
                #[trigger] open_files@[i],
            ) by {
                assert(opened_file_types()[i] == open_files@[i]);
            }
        }
        let pending: Vec<LogRecord> = Vec::new();
        assert(records_view(pending@) =~= Seq::empty());
        let r = BlockSTMLogger {
            config,
            open_files,
            execution_context: context,
            execution_stats: BlockExecutionStats::empty(),
            separated_stall_stats: SeparatedStallStatistics::empty(None),
            pending,
        };
        r
    }

    /// The configuration of the logger.
    pub fn config(&self) -> (r: &LoggingConfig)
        ensures
            *r == self@.config,
    {
        &self.config
    }

    /// Whether the logger has the file of kind `file` open.
    pub fn has_file(&self, file: LogFileType) -> (r: bool)
        ensures
            r == self@.open_files.contains(file),
    {
        let mut i: usize = 0;
        while i < self.open_files.len()
            invariant
                i <= self.open_files@.len(),
                forall|j: int| 0 <= j < i ==> self.open_files@[j] != file,
            decreases self.open_files@.len() - i,
        {
            if self.open_files[i] == file {
                return true;
            }
            i = i + 1;
        }
        false
    }

    /// Hands out the lines decided on, oldest first, and forgets them.
    pub fn take_pending(&mut self) -> (r: Vec<LogRecord>)
        requires
            old(self).wf(),
        ensures
            final(self).wf(),
            records_view(r@) == old(self)@.pending,
            final(self)@ == (LoggerView { pending: Seq::empty(), ..old(self)@ }),
    {
        let mut r: Vec<LogRecord> = Vec::new();
        std::mem::swap(&mut r, &mut self.pending);
        assert(records_view(self.pending@) =~= Seq::empty());
        r
    }

    /// Queues `line` for the file `file`.
    fn push_line(&mut self, file: LogFileType, line: LogLine)
        requires
            old(self).wf(),
        ensures
            final(self).wf(),
            final(self)@ == (LoggerView { pending: old(self)@.pending.push((file, line@)), ..old(self)@ }),
    {
        let ghost before = self.pending@;
        let ghost lv = line@;
        self.pending.push(LogRecord { file, line });
        assert(records_view(self.pending@) =~= records_view(before).push((file, lv)));
    }

    /// Logs an event at a level: it is written to the file it belongs in when
    /// logging is enabled, the level is at least the configured one, and that
    /// file is open.
    pub fn log_event(&mut self, event: LogEvent, level: LogLevel)
        requires
            old(self).wf(),
        ensures
            final(self).wf(),
            final(self)@ == old(self)@.log(event@, level),
    {
        if !self.config.enabled || level.is_below(&self.config.log_level) {
            assert(self@.pending + Seq::empty() =~= self@.pending);
            return ;
        }
        let file = event.route();
        if self.has_file(file) {
            let ghost ev = event@;
            self.push_line(file, LogLine::Event(event));
            assert(old(self)@.pending.push((file, LineView::Event(ev))) =~= old(self)@.pending
                + old(self)@.emission(ev, level));
        } else {
            assert(self@.pending + Seq::empty() =~= self@.pending);
        }
    }

    /// Writes a copy of an event at a level to `file` when logging is
    /// enabled, the level is at least the configured one, and that file is
    /// open.
    fn log_event_to(&mut self, event: LogEvent, level: LogLevel, file: LogFileType)
        requires
            old(self).wf(),
        ensures
            final(self).wf(),
            final(self)@ == old(self)@.log_to(event@, level, file),
    {
        if !self.config.enabled || level.is_below(&self.config.log_level) {
            return ;
        }
        if self.has_file(file) {
            self.push_line(file, LogLine::Event(event));
        }
    }

    /// A copy of a list of strings.
    fn copy_strings(v: &Vec<String>) -> (r: Vec<String>)
        ensures
            strings_view(r@) == strings_view(v@),
    {
        let mut r: Vec<String> = Vec::new();
        for i in 0..v.len()
            invariant
                r@.len() == i,
                i <= v@.len(),
                forall|j: int| 0 <= j < i ==> #[trigger] r@[j]@ == v@[j]@,
        {
            r.push(v[i].clone());
        }
        assert(strings_view(r@) =~= strings_view(v@));
        r
    }

    /// A copy of a list of pairs of strings.
    fn copy_pairs(v: &Vec<(String, String)>) -> (r: Vec<(String, String)>)
        ensures
            pairs_view(r@) == pairs_view(v@),
    {
        let mut r: Vec<(String, String)> = Vec::new();
        for i in 0..v.len()
            invariant
                r@.len() == i,
                i <= v@.len(),
                forall|j: int| 0 <= j < i ==> (#[trigger] r@[j]).0@ == v@[j].0@ && r@[j].1@ == v@[j].1@,
        {
            let key = v[i].0.clone();
            let value = v[i].1.clone();
            r.push((key, value));
        }
        assert(pairs_view(r@) =~= pairs_view(v@));
        r
    }

    /// Writes `line` to the stall event file, when that file is open.
    fn write_stall_line(&mut self, line: LogLine)
        requires
            old(self).wf(),
        ensures
            final(self).wf(),
            final(self)@ == old(self)@.write_stall_line(line@),
    {
        if self.has_file(LogFileType::StallEvents) {
            self.push_line(LogFileType::StallEvents, line);
        }
    }

    /// Replaces the execution context.
    pub fn set_execution_context(&mut self, context: ExecutionContext)
        requires
            old(self).wf(),
        ensures
            final(self).wf(),
            final(self)@ == (LoggerView { context: context@, ..old(self)@ }),
    {
        self.execution_context = context;
    }

    /// Replaces the data set and the source file of the execution context,
    /// where given.
    pub fn update_execution_context(&mut self, dataset: Option<String>, source_csv: Option<String>)
        requires
            old(self).wf(),
        ensures
            final(self).wf(),
            final(self)@ == (LoggerView {
                context: ExecutionContextView {
                    dataset: match dataset {
                        Some(d) => d@,
                        None => old(self)@.context.dataset,
                    },
                    source_csv: match source_csv {
                        Some(s) => s@,
                        None => old(self)@.context.source_csv,
                    },
                    ..old(self)@.context
                },
                ..old(self)@
            }),
    {
        if let Some(d) = dataset {
            self.execution_context.dataset = d;
        }
        if let Some(s) = source_csv {
            self.execution_context.source_csv = s;
        }
    }

    /// The execution context.
    pub fn execution_context(&self) -> (r: ExecutionContext)
        ensures
            r@ == self@.context,
    {
        self.execution_context.copy()
    }

    /// Marks the start of the execution of a block.
    pub fn mark_block_execution_start(&mut self, at: &Moment)
        requires
            old(self).wf(),
        ensures
            final(self).wf(),
            final(self)@ == old(self)@.with_stats(
                BlockExecutionStatsView { start_time: Some(at.monotonic_ns), ..old(self)@.stats },
            ),
    {
        self.execution_stats.start_time = Some(at.monotonic_ns);
    }

    /// Counts one more stall event.
    pub fn increment_stall_events(&mut self)
        requires
            old(self).wf(),
        ensures
            final(self).wf(),
            final(self)@ == old(self)@.count_stall_event(),
    {
        self.execution_stats.stall_events_count = wrap_add_u32(
            self.execution_stats.stall_events_count,
            1,
        );
    }

    /// The number of stall events counted.
    pub fn get_stall_events_count(&self) -> (r: u32)
        ensures
            r == self@.stats.stall_events_count,
    {
        self.execution_stats.stall_events_count
    }

    /// Counts `duration_ns` more nanoseconds of stall time.
    pub fn record_stall_time(&mut self, duration_ns: u64)
        requires
            old(self).wf(),
        ensures
            final(self).wf(),
            final(self)@ == old(self)@.add_stall_time(duration_ns),
    {
        self.execution_stats.total_stall_time_ns = wrap_add_u64(
            self.execution_stats.total_stall_time_ns,
            duration_ns,
        );
    }

    /// The total stall time counted, in nanoseconds.
    pub fn get_total_stall_time_ns(&self) -> (r: u64)
        ensures
            r == self@.stats.total_stall_time_ns,
    {
        self.execution_stats.total_stall_time_ns
    }

    /// Resets the stall statistics for a new run: the stall event count, the
    /// stall time, the ongoing stall starts and the separated statistics.
    pub fn reset_stall_statistics(&mut self, at: &Moment)
        requires
            old(self).wf(),
        ensures
            final(self).wf(),
            final(self)@ == old(self)@.reset_stalls(at.monotonic_ns),
    {
        self.execution_stats.stall_events_count = 0;
        self.execution_stats.total_stall_time_ns = 0;
        self.execution_stats.stall_start_times = Vec::new();
        self.reset_separated_stall_statistics(at);
    }

    /// Resets the separated stall statistics; they count from `at` on.
    pub fn reset_separated_stall_statistics(&mut self, at: &Moment)
        requires
            old(self).wf(),
        ensures
            final(self).wf(),
            final(self)@ == old(self)@.reset_separated(at.monotonic_ns),
    {
        self.separated_stall_stats = SeparatedStallStatistics::empty(Some(at.monotonic_ns));
    }

    /// Counts one more transaction-level stall and returns the new count.
    pub fn increment_transaction_stalls(&mut self) -> (r: u32)
        requires
            old(self).wf(),
            old(self)@.sep.transaction_stalls < u32::MAX,
        ensures
            final(self).wf(),
            r == old(self)@.sep.transaction_stalls + 1,
            final(self)@ == old(self)@.count_transaction_stall(),
    {
        let count = self.separated_stall_stats.transaction_stalls + 1;
        self.separated_stall_stats.transaction_stalls = count;
        self.separated_stall_stats.total_stall_events = wrap_add_u32(
            self.separated_stall_stats.total_stall_events,
            1,
        );
        proof {
            assert(add_u32(add_u32(old(self)@.sep.transaction_stalls, old(self)@.sep.system_stalls), 1)
                == add_u32(count, old(self)@.sep.system_stalls));
        }
        count
    }

    /// Counts `duration_us` more microseconds of transaction-level stalls.
    pub fn record_transaction_stall_duration(&mut self, duration_us: u64)
        requires
            old(self).wf(),
        ensures
            final(self).wf(),
            final(self)@ == old(self)@.add_transaction_stall_duration(duration_us),
    {
        self.separated_stall_stats.transaction_stall_duration_total_us = wrap_add_u64(
            self.separated_stall_stats.transaction_stall_duration_total_us,
            duration_us,
        );
    }

    /// Counts one more stall of transaction `txn_id`.
    pub fn increment_transaction_stall_by_txn(&mut self, txn_id: u32)
        requires
            old(self).wf(),
            old(self)@.sep.transaction_stall_count_by_txn.contains_key(txn_id)
                ==> old(self)@.sep.transaction_stall_count_by_txn[txn_id] < u32::MAX,
        ensures
            final(self).wf(),
            final(self)@ == old(self)@.count_transaction_stall_of(txn_id),
    {
        let c = match self.separated_stall_stats.transaction_stall_count_by_txn.get(&txn_id) {
            Some(c) => *c,
            None => 0,
        };
        self.separated_stall_stats.transaction_stall_count_by_txn.insert(txn_id, c + 1);
    }

    /// Counts one more system-level stall and returns the new count.
    pub fn increment_system_stalls(&mut self) -> (r: u32)
        requires
            old(self).wf(),
            old(self)@.sep.system_stalls < u32::MAX,
        ensures
            final(self).wf(),
            r == old(self)@.sep.system_stalls + 1,
            final(self)@ == old(self)@.count_system_stall(),
    {
        let count = self.separated_stall_stats.system_stalls + 1;
        self.separated_stall_stats.system_stalls = count;
        self.separated_stall_stats.total_stall_events = wrap_add_u32(
            self.separated_stall_stats.total_stall_events,
            1,
        );
        proof {
            assert(add_u32(add_u32(old(self)@.sep.transaction_stalls, old(self)@.sep.system_stalls), 1)
                == add_u32(old(self)@.sep.transaction_stalls, count));
        }
        count
    }

    /// Counts `duration_us` more microseconds of system-level stalls.
    pub fn record_system_stall_duration(&mut self, duration_us: u64)
        requires
            old(self).wf(),
        ensures
            final(self).wf(),
            final(self)@ == old(self)@.add_system_stall_duration(duration_us),
    {
        self.separated_stall_stats.system_stall_duration_total_us = wrap_add_u64(
            self.separated_stall_stats.system_stall_duration_total_us,
            duration_us,
        );
    }

    /// Counts one more stall of worker `worker_id`.
    pub fn increment_system_stall_by_worker(&mut self, worker_id: u32)
        requires
            old(self).wf(),
            old(self)@.sep.system_stall_count_by_worker.contains_key(worker_id)
                ==> old(self)@.sep.system_stall_count_by_worker[worker_id] < u32::MAX,
        ensures
            final(self).wf(),
            final(self)@ == old(self)@.count_system_stall_of(worker_id),
    {
        let c = match self.separated_stall_stats.system_stall_count_by_worker.get(&worker_id) {
            Some(c) => *c,
            None => 0,
        };
        self.separated_stall_stats.system_stall_count_by_worker.insert(worker_id, c + 1);
    }

    /// Notes that worker `worker_id` stalls from `at` on.
    pub fn start_system_stall(&mut self, worker_id: u32, at: &Moment)
        requires
            old(self).wf(),
        ensures
            final(self).wf(),
            final(self)@ == old(self)@.start_system_stall(worker_id, at.monotonic_ns),
    {
        self.separated_stall_stats.system_stall_start_times.insert(worker_id, at.monotonic_ns);
    }

    /// Ends the ongoing stall of worker `worker_id` at `at`, counts its length
    /// and returns it in microseconds; `None` where no stall of the worker is
    /// ongoing.
    pub fn end_system_stall(&mut self, worker_id: u32, at: &Moment) -> (r: Option<u64>)
        requires
            old(self).wf(),
        ensures
            final(self).wf(),
            r == old(self)@.system_stall_length(worker_id, at.monotonic_ns),
            final(self)@ == old(self)@.end_system_stall(worker_id, at.monotonic_ns),
    {
        match self.separated_stall_stats.system_stall_start_times.remove(&worker_id) {
            Some(start) => {
                let d = elapsed_micros(start, at.monotonic_ns);
                self.record_system_stall_duration(d);
                Some(d)
            },
            None => {
                assert(self.separated_stall_stats.system_stall_start_times@ =~= old(
                    self,
                ).separated_stall_stats.system_stall_start_times@);
                None
            },
        }
    }

    /// The number of transaction-level stalls.
    pub fn get_transaction_stall_count(&self) -> (r: u32)
        ensures
            r == self@.sep.transaction_stalls,
    {
        self.separated_stall_stats.transaction_stalls
    }

    /// The number of system-level stalls.
    pub fn get_system_stall_count(&self) -> (r: u32)
        ensures
            r == self@.sep.system_stalls,
    {
        self.separated_stall_stats.system_stalls
    }

    /// The number of all stall events of the separated statistics.
    pub fn get_total_stall_count_separated(&self) -> (r: u32)
        ensures
            r == self@.sep.total_stall_events,
    {
        self.separated_stall_stats.total_stall_events
    }

    /// The counts and total durations of the separated stall statistics, with
    /// the number of all stalls.
    pub fn get_separated_stall_counts(&self) -> (r: StallCounts)
        requires
            self@.sep.transaction_stalls + self@.sep.system_stalls <= u32::MAX,
        ensures
            r.transaction_stalls == self@.sep.transaction_stalls,
            r.system_stalls == self@.sep.system_stalls,
            r.total_stalls == self@.sep.transaction_stalls + self@.sep.system_stalls,
            r.transaction_stall_duration_total_us == self@.sep.transaction_stall_duration_total_us,
            r.system_stall_duration_total_us == self@.sep.system_stall_duration_total_us,
    {
        let t = self.get_transaction_stall_count();
        let s = self.get_system_stall_count();
        StallCounts {
            transaction_stalls: t,
            system_stalls: s,
            total_stalls: t + s,
            transaction_stall_duration_total_us: self.separated_stall_stats.transaction_stall_duration_total_us,
            system_stall_duration_total_us: self.separated_stall_stats.system_stall_duration_total_us,
        }
    }

    /// Counts one more advance of the execution waterline.
    pub fn increment_waterline_advances(&mut self)
        requires
            old(self).wf(),
        ensures
            final(self).wf(),
            final(self)@ == old(self)@.with_stats(
                BlockExecutionStatsView {
                    waterline_advances_count: add_u32(old(self)@.stats.waterline_advances_count, 1),
                    ..old(self)@.stats
                },
            ),
    {
        self.execution_stats.waterline_advances_count = wrap_add_u32(
            self.execution_stats.waterline_advances_count,
            1,
        );
    }

    /// Counts one more abort cycle.
    pub fn increment_abort_cycles(&mut self)
        requires
            old(self).wf(),
        ensures
            final(self).wf(),
            final(self)@ == old(self)@.with_stats(
                BlockExecutionStatsView {
                    abort_cycles_count: add_u32(old(self)@.stats.abort_cycles_count, 1),
                    ..old(self)@.stats
                },
            ),
    {
        self.execution_stats.abort_cycles_count = wrap_add_u32(
            self.execution_stats.abort_cycles_count,
            1,
        );
    }

    /// Raises the largest number of concurrent executions to
    /// `current_concurrent` where that is larger.
    pub fn update_max_concurrent_executions(&mut self, current_concurrent: u32)
        requires
            old(self).wf(),
        ensures
            final(self).wf(),
            final(self)@ == old(self)@.raise_max_concurrency(current_concurrent),
    {
        if current_concurrent > self.execution_stats.max_concurrent_executions {
            self.execution_stats.max_concurrent_executions = current_concurrent;
        }
    }

    /// Counts one more execution, and one more re-execution where it is one.
    pub fn record_transaction_execution(&mut self, is_reexecution: bool)
        requires
            old(self).wf(),
        ensures
            final(self).wf(),
            final(self)@ == old(self)@.with_stats(
                BlockExecutionStatsView {
                    total_transactions: add_u64(old(self)@.stats.total_transactions, 1),
                    total_reexecutions: if is_reexecution {
                        add_u64(old(self)@.stats.total_reexecutions, 1)
                    } else {
                        old(self)@.stats.total_reexecutions
                    },
                    ..old(self)@.stats
                },
            ),
    {
        self.execution_stats.total_transactions = wrap_add_u64(
            self.execution_stats.total_transactions,
            1,
        );
        if is_reexecution {
            self.execution_stats.total_reexecutions = wrap_add_u64(
                self.execution_stats.total_reexecutions,
                1,
            );
        }
    }

    /// Counts one more transition of a commit marker.
    pub fn increment_commit_marker_transitions(&mut self)
        requires
            old(self).wf(),
        ensures
            final(self).wf(),
            final(self)@ == old(self)@.with_stats(
                BlockExecutionStatsView {
                    commit_marker_transitions: add_u32(old(self)@.stats.commit_marker_transitions, 1),
                    ..old(self)@.stats
                },
            ),
    {
        self.execution_stats.commit_marker_transitions = wrap_add_u32(
            self.execution_stats.commit_marker_transitions,
            1,
        );
    }

    /// Counts one more post-commit task.
    pub fn increment_post_commit_tasks(&mut self)
        requires
            old(self).wf(),
        ensures
            final(self).wf(),
            final(self)@ == old(self)@.with_stats(
                BlockExecutionStatsView {
                    post_commit_tasks_count: add_u32(old(self)@.stats.post_commit_tasks_count, 1),
                    ..old(self)@.stats
                },
            ),
    {
        self.execution_stats.post_commit_tasks_count = wrap_add_u32(
            self.execution_stats.post_commit_tasks_count,
            1,
        );
    }

    /// Counts one more task of kind `task_type`.
    pub fn record_task_type(&mut self, task_type: &str)
        requires
            old(self).wf(),
            match task_index(old(self)@.stats.task_distribution, task_type@) {
                Some(i) => old(self)@.stats.task_distribution[i].1 < u32::MAX,
                None => true,
            },
        ensures
            final(self).wf(),
            final(self)@ == old(self)@.with_stats(
                BlockExecutionStatsView {
                    task_distribution: count_task(old(self)@.stats.task_distribution, task_type@),
                    ..old(self)@.stats
                },
            ),
    {
        let ghost s = old(self)@.stats.task_distribution;
        let n = self.execution_stats.task_distribution_map.len();
        let mut i: usize = 0;
        while i < n
            invariant
                n == self.execution_stats.task_distribution_map@.len(),
                self@ == old(self)@,
                old(self).wf(),
                self.wf(),
                s == self@.stats.task_distribution,
                match task_index(s, task_type@) {
                    Some(k) => s[k].1 < u32::MAX,
                    None => true,
                },
                i <= n,
                forall|j: int| 0 <= j < i ==> s[j].0 != task_type@,
            decreases n - i,
        {
            assert(s[i as int].0 == self.execution_stats.task_distribution_map@[i as int].0@);
            if str_equal(self.execution_stats.task_distribution_map[i].0.as_str(), task_type) {
                proof {
                    assert(task_index(s, task_type@) is Some);
                    let k = task_index(s, task_type@)->0;
                    assert(k == i) by {
                        if k != i {
                            if k < i {
                                assert(s[k].0 != task_type@);
                            } else {
                                assert(s[i as int].0 != s[k].0);
                            }
                        }
                    }
                }
                let key = self.execution_stats.task_distribution_map[i].0.clone();
                let c = self.execution_stats.task_distribution_map[i].1;
                assert(c == s[i as int].1);
                self.execution_stats.task_distribution_map.set(i, (key, c + 1));
                proof {
                    assert(self@.stats.task_distribution =~= count_task(s, task_type@));
                    assert(task_keys_unique(self@.stats.task_distribution)) by {
                        assert forall|a: int, b: int|
                            0 <= a < b < self@.stats.task_distribution.len() implies #[trigger] self@.stats.task_distribution[a].0
                            != #[trigger] self@.stats.task_distribution[b].0 by {
                            assert(s[a].0 != s[b].0);
                        }
                    }
                }
                return ;
            }
            i = i + 1;
        }
        self.execution_stats.task_distribution_map.push((String::from_str(task_type), 1));
        proof {
            assert(task_index(s, task_type@) is None);
            let t = self@.stats.task_distribution;
            assert(t =~= s.push((task_type@, 1u32)));
            assert forall|a: int, b: int| 0 <= a < b < t.len() implies #[trigger] t[a].0
                != #[trigger] t[b].0 by {
                if b < s.len() {
                    assert(t[a] == s[a] && t[b] == s[b]);
                } else {
                    assert(t[a] == s[a]);
                }
            }
            assert(self@.stats.task_distribution =~= count_task(s, task_type@));
        }
    }

    /// Adds a sample of the number of concurrent executions; past a thousand
    /// samples only the first five hundred are kept.
    pub fn sample_concurrent_executions(&mut self, concurrent_count: u32)
        requires
            old(self).wf(),
        ensures
            final(self).wf(),
            final(self)@ == old(self)@.with_stats(
                BlockExecutionStatsView {
                    concurrent_execution_samples: add_sample(
                        old(self)@.stats.concurrent_execution_samples,
                        concurrent_count,
                    ),
                    ..old(self)@.stats
                },
            ),
    {
        self.execution_stats.concurrent_execution_samples.push(concurrent_count);
        if self.execution_stats.concurrent_execution_samples.len() > 1000 {
            self.execution_stats.concurrent_execution_samples.truncate(500);
        }
    }

    /// Records that thread `thread_id` takes part.
    pub fn record_participating_thread(&mut self, thread_id: u64)
        requires
            old(self).wf(),
        ensures
            final(self).wf(),
            final(self)@ == old(self)@.record_thread(thread_id),
    {
        self.execution_stats.participating_threads.insert(thread_id);
    }

    /// The threads that took part, in increasing order.
    pub fn get_participating_threads(&self) -> (r: Vec<u64>)
        requires
            self.wf(),
        ensures
            r@ == threads_in_order(self@.stats.participating_threads),
            strictly_increasing(r@),
            r@.to_set() == self@.stats.participating_threads,
    {
        let ghost m = self@.stats.participating_threads;
        let ghost keys = vstd::std_specs::iter::IteratorSpec::remaining(
            &vstd::std_specs::hash::spec_hash_keys_iter(&self.execution_stats.participating_threads),
        );
        let ghost mut seen: int = 0;
        let mut r: Vec<u64> = Vec::new();
        for t in it: self.execution_stats.participating_threads.iter()
            invariant
                it.seq() == keys,
                seen == it.index(),
                keys.unref().to_set() == m,
                strictly_increasing(r@),
                forall|x: u64|
                    r@.to_set().contains(x) <==> exists|j: int|
                        0 <= j < seen && *#[trigger] keys[j] == x,
        {
            insert_sorted(&mut r, *t);
            proof {
                assert forall|x: u64|
                    r@.to_set().contains(x) <==> exists|j: int|
                        0 <= j < seen + 1 && *#[trigger] keys[j] == x by {
                    if x == *t {
                        assert(*keys[seen] == x);
                    }
                }
                seen = seen + 1;
            }
        }
        proof {
            assert(seen == keys.len());
            assert(r@.to_set() =~= m) by {
                assert forall|x: u64| r@.to_set().contains(x) <==> m.contains(x) by {
                    if m.contains(x) {
                        assert(keys.unref().contains(x));
                        let j = choose|j: int| 0 <= j < keys.unref().len() && keys.unref()[j] == x;
                        assert(*keys[j] == x);
                    }
                    if r@.to_set().contains(x) {
                        let j = choose|j: int| 0 <= j < seen && *#[trigger] keys[j] == x;
                        assert(keys.unref()[j] == x);
                    }
                }
            }
            let t = threads_in_order(m);
            lemma_increasing_sequence_unique(t, r@);
        }
        r
    }

    /// Starts tracking an execution of incarnation `incarnation` of
    /// transaction `txn_idx` at `at`.
    pub fn start_transaction_execution(&mut self, txn_idx: u32, incarnation: u32, at: &Moment)
        requires
            old(self).wf(),
            incarnation > 1 && old(self)@.stats.transaction_stats.contains_key(txn_idx)
                ==> old(self)@.stats.transaction_stats[txn_idx].reexecution_count < u32::MAX,
        ensures
            final(self).wf(),
            final(self)@ == old(self)@.with_stats(
                BlockExecutionStatsView {
                    transaction_stats: old(self)@.stats.transaction_stats.insert(
                        txn_idx,
                        started_stats(
                            old(self)@.stats.transaction_stats,
                            txn_idx,
                            incarnation,
                            at.monotonic_ns,
                        ),
                    ),
                    ..old(self)@.stats
                },
            ),
    {
        let ghost m = self.execution_stats.transaction_stats@;
        let mut st = match self.execution_stats.transaction_stats.remove(&txn_idx) {
            Some(s) => s,
            None => TransactionStats::empty(),
        };
        st.start_time = Some(at.monotonic_ns);
        st.first_execution = incarnation == 1;
        if incarnation > 1 {
            st.reexecution_count = st.reexecution_count + 1;
        }
        let ghost sv = st@;
        self.execution_stats.transaction_stats.insert(txn_idx, st);
        assert(self.execution_stats.transaction_stats@.map_values(|s: TransactionStats| s@)
            =~= m.map_values(|s: TransactionStats| s@).insert(txn_idx, sv));
    }

    /// Finishes tracking the execution of transaction `txn_idx` at `at`.
    pub fn finish_transaction_execution(&mut self, txn_idx: u32, incarnation: u32, at: &Moment)
        requires
            old(self).wf(),
        ensures
            final(self).wf(),
            final(self)@ == (if old(self)@.stats.transaction_stats.contains_key(txn_idx) {
                old(self)@.with_stats(
                    BlockExecutionStatsView {
                        transaction_stats: old(self)@.stats.transaction_stats.insert(
                            txn_idx,
                            finished_stats(old(self)@.stats.transaction_stats[txn_idx], at.monotonic_ns),
                        ),
                        ..old(self)@.stats
                    },
                )
            } else {
                old(self)@
            }),
    {
        let ghost m = self.execution_stats.transaction_stats@;
        match self.execution_stats.transaction_stats.remove(&txn_idx) {
            Some(mut st) => {
                if let Some(start) = st.start_time {
                    st.execution_time_us = elapsed_micros(start, at.monotonic_ns);
                }
                st.task_kind = String::from_str("Execute");
                let ghost sv = st@;
                self.execution_stats.transaction_stats.insert(txn_idx, st);
                assert(self.execution_stats.transaction_stats@.map_values(|s: TransactionStats| s@)
                    =~= m.map_values(|s: TransactionStats| s@).insert(txn_idx, sv));
            },
            None => {
                assert(self.execution_stats.transaction_stats@ =~= m);
            },
        }
    }

    /// Counts one more stall of transaction `txn_idx`, where it is tracked.
    pub fn record_transaction_stall(&mut self, txn_idx: u32)
        requires
            old(self).wf(),
            old(self)@.stats.transaction_stats.contains_key(txn_idx)
                ==> old(self)@.stats.transaction_stats[txn_idx].stall_count < u32::MAX,
        ensures
            final(self).wf(),
            final(self)@ == (if old(self)@.stats.transaction_stats.contains_key(txn_idx) {
                old(self)@.with_stats(
                    BlockExecutionStatsView {
                        transaction_stats: old(self)@.stats.transaction_stats.insert(
                            txn_idx,
                            TransactionStatsView {
                                stall_count: (old(self)@.stats.transaction_stats[txn_idx].stall_count
                                    + 1) as u32,
                                ..old(self)@.stats.transaction_stats[txn_idx]
                            },
                        ),
                        ..old(self)@.stats
                    },
                )
            } else {
                old(self)@
            }),
    {
        let ghost m = self.execution_stats.transaction_stats@;
        match self.execution_stats.transaction_stats.remove(&txn_idx) {
            Some(mut st) => {
                st.stall_count = st.stall_count + 1;
                let ghost sv = st@;
                self.execution_stats.transaction_stats.insert(txn_idx, st);
                assert(self.execution_stats.transaction_stats@.map_values(|s: TransactionStats| s@)
                    =~= m.map_values(|s: TransactionStats| s@).insert(txn_idx, sv));
            },
            None => {
                assert(self.execution_stats.transaction_stats@ =~= m);
            },
        }
    }

    /// Counts one more abort of transaction `txn_idx`, where it is tracked.
    pub fn record_transaction_abort(&mut self, txn_idx: u32)
        requires
            old(self).wf(),
            old(self)@.stats.transaction_stats.contains_key(txn_idx)
                ==> old(self)@.stats.transaction_stats[txn_idx].abort_count < u32::MAX,
        ensures
            final(self).wf(),
            final(self)@ == (if old(self)@.stats.transaction_stats.contains_key(txn_idx) {
                old(self)@.with_stats(
                    BlockExecutionStatsView {
                        transaction_stats: old(self)@.stats.transaction_stats.insert(
                            txn_idx,
                            TransactionStatsView {
                                abort_count: (old(self)@.stats.transaction_stats[txn_idx].abort_count
                                    + 1) as u32,
                                ..old(self)@.stats.transaction_stats[txn_idx]
                            },
                        ),
                        ..old(self)@.stats
                    },
                )
            } else {
                old(self)@
            }),
    {
        let ghost m = self.execution_stats.transaction_stats@;
        match self.execution_stats.transaction_stats.remove(&txn_idx) {
            Some(mut st) => {
                st.abort_count = st.abort_count + 1;
                let ghost sv = st@;
                self.execution_stats.transaction_stats.insert(txn_idx, st);
                assert(self.execution_stats.transaction_stats@.map_values(|s: TransactionStats| s@)
                    =~= m.map_values(|s: TransactionStats| s@).insert(txn_idx, sv));
            },
            None => {
                assert(self.execution_stats.transaction_stats@ =~= m);
            },
        }
    }

    /// Records the waterline at which transaction `txn_idx` runs, where it is
    /// tracked.
    pub fn update_transaction_waterline(&mut self, txn_idx: u32, waterline: u32)
        requires
            old(self).wf(),
        ensures
            final(self).wf(),
            final(self)@ == (if old(self)@.stats.transaction_stats.contains_key(txn_idx) {
                old(self)@.with_stats(
                    BlockExecutionStatsView {
                        transaction_stats: old(self)@.stats.transaction_stats.insert(
                            txn_idx,
                            TransactionStatsView {
                                waterline_at_exec: waterline,
                                ..old(self)@.stats.transaction_stats[txn_idx]
                            },
                        ),
                        ..old(self)@.stats
                    },
                )
            } else {
                old(self)@
            }),
    {
        let ghost m = self.execution_stats.transaction_stats@;
        match self.execution_stats.transaction_stats.remove(&txn_idx) {
            Some(mut st) => {
                st.waterline_at_exec = waterline;
                let ghost sv = st@;
                self.execution_stats.transaction_stats.insert(txn_idx, st);
                assert(self.execution_stats.transaction_stats@.map_values(|s: TransactionStats| s@)
                    =~= m.map_values(|s: TransactionStats| s@).insert(txn_idx, sv));
            },
            None => {
                assert(self.execution_stats.transaction_stats@ =~= m);
            },
        }
    }

    /// The statistics of transaction `txn_idx`, where it is tracked.
    pub fn get_transaction_stats(&self, txn_idx: u32) -> (r: Option<TransactionStats>)
        ensures
            match r {
                Some(s) => self@.stats.transaction_stats.contains_key(txn_idx)
                    && s@ == self@.stats.transaction_stats[txn_idx],
                None => !self@.stats.transaction_stats.contains_key(txn_idx),
            },
    {
        match self.execution_stats.transaction_stats.get(&txn_idx) {
            Some(s) => Some(s.copy()),
            None => None,
        }
    }

    /// The position of the stall start of incarnation `inc` of `txn`, if any.
    fn find_stall_start(&self, txn: TxnIndex, inc: Incarnation) -> (r: Option<usize>)
        requires
            self.wf(),
        ensures
            match r {
                Some(i) => has_stall_start(self@.stats.stall_start_times, txn, inc) && i
                    == stall_start_index(self@.stats.stall_start_times, txn, inc) && i
                    < self@.stats.stall_start_times.len(),
                None => !has_stall_start(self@.stats.stall_start_times, txn, inc),
            },
    {
        let ghost s = self@.stats.stall_start_times;
        let v = &self.execution_stats.stall_start_times;
        let mut i: usize = 0;
        while i < v.len()
            invariant
                s == v@,
                s == self@.stats.stall_start_times,
                stall_keys_unique(s),
                i <= v@.len(),
                forall|j: int| 0 <= j < i ==> !(v@[j].txn_id == txn && v@[j].incarnation == inc),
            decreases v@.len() - i,
        {
            if v[i].txn_id == txn && v[i].incarnation == inc {
                proof {
                    assert(s[i as int].txn_id == txn && s[i as int].incarnation == inc);
                    assert(has_stall_start(s, txn, inc));
                    let k = stall_start_index(s, txn, inc);
                    assert(s[k].txn_id == txn && s[k].incarnation == inc);
                    if k < i {
                        assert(!(s[k].txn_id == s[i as int].txn_id && s[k].incarnation
                            == s[i as int].incarnation));
                    } else if k > i {
                        assert(!(s[i as int].txn_id == s[k].txn_id && s[i as int].incarnation
                            == s[k].incarnation));
                    }
                }
                return Some(i);
            }
            i = i + 1;
        }
        None
    }

    /// The first position of a stall start of `txn`, of any incarnation.
    fn find_first_stall_of(&self, txn: TxnIndex) -> (r: Option<usize>)
        requires
            self.wf(),
        ensures
            match r {
                Some(i) => i < self@.stats.stall_start_times.len() && first_stall_start_of(
                    self@.stats.stall_start_times,
                    txn,
                ) == Some(i as int),
                None => first_stall_start_of(self@.stats.stall_start_times, txn) is None,
            },
    {
        let ghost s = self@.stats.stall_start_times;
        let v = &self.execution_stats.stall_start_times;
        let mut i: usize = 0;
        while i < v.len()
            invariant
                s == v@,
                s == self@.stats.stall_start_times,
                i <= v@.len(),
                forall|j: int| 0 <= j < i ==> v@[j].txn_id != txn,
            decreases v@.len() - i,
        {
            if v[i].txn_id == txn {
                proof {
                    assert(s[i as int].txn_id == txn);
                    assert(0 <= i < s.len() && s[i as int].txn_id == txn && forall|j: int|
                        0 <= j < i ==> s[j].txn_id != txn);
                    let k = first_stall_start_of(s, txn)->0;
                    assert(0 <= k < s.len() && s[k].txn_id == txn && forall|j: int|
                        0 <= j < k ==> s[j].txn_id != txn);
                    if k < i {
                        assert(s[k].txn_id != txn);
                    } else if k > i {
                        assert(s[i as int].txn_id != txn);
                    }
                }
                return Some(i);
            }
            i = i + 1;
        }
        proof {
            assert forall|j: int| 0 <= j < s.len() implies #[trigger] s[j].txn_id != txn by {
                assert(v@[j].txn_id != txn);
            }
        }
        None
    }

    /// Sets the stall start of incarnation `inc` of `txn` to `now`.
    fn set_stall_start(&mut self, txn: TxnIndex, inc: Incarnation, now: u64)
        requires
            old(self).wf(),
        ensures
            final(self).wf(),
            final(self)@ == old(self)@.set_stall_start(txn, inc, now),
    {
        let ghost s = self@.stats.stall_start_times;
        let entry = StallStart { txn_id: txn, incarnation: inc, start_ns: now };
        match self.find_stall_start(txn, inc) {
            Some(i) => {
                self.execution_stats.stall_start_times.set(i, entry);
                proof {
                    let t = self@.stats.stall_start_times;
                    assert(t == s.update(i as int, entry));
                    assert forall|a: int, b: int| 0 <= a < b < t.len() implies !(#[trigger] t[a].txn_id
                        == #[trigger] t[b].txn_id && t[a].incarnation == t[b].incarnation) by {
                        if a != i && b != i {
                            assert(t[a] == s[a] && t[b] == s[b]);
                        } else if a == i {
                            assert(t[b] == s[b]);
                        } else {
                            assert(t[a] == s[a]);
                        }
                    }
                }
            },
            None => {
                self.execution_stats.stall_start_times.push(entry);
                proof {
                    let t = self@.stats.stall_start_times;
                    assert(t == s.push(entry));
                    assert forall|a: int, b: int| 0 <= a < b < t.len() implies !(#[trigger] t[a].txn_id
                        == #[trigger] t[b].txn_id && t[a].incarnation == t[b].incarnation) by {
                        if b < s.len() {
                            assert(t[a] == s[a] && t[b] == s[b]);
                        } else {
                            assert(t[a] == s[a]);
                            if s[a].txn_id == txn && s[a].incarnation == inc {
                                assert(has_stall_start(s, txn, inc));
                            }
                        }
                    }
                }
            },
        }
    }

    /// Drops the stall start at position `i` and returns it.
    fn drop_stall_start(&mut self, i: usize) -> (r: StallStart)
        requires
            old(self).wf(),
            i < old(self)@.stats.stall_start_times.len(),
        ensures
            final(self).wf(),
            r == old(self)@.stats.stall_start_times[i as int],
            final(self)@ == old(self)@.drop_stall_start(i as int),
    {
        let ghost s = self@.stats.stall_start_times;
        let r = self.execution_stats.stall_start_times.remove(i);
        proof {
            let t = self@.stats.stall_start_times;
            assert forall|a: int, b: int| 0 <= a < b < t.len() implies !(#[trigger] t[a].txn_id
                == #[trigger] t[b].txn_id && t[a].incarnation == t[b].incarnation) by {
                let a0 = if a < i { a } else { a + 1 };
                let b0 = if b < i { b } else { b + 1 };
                assert(t[a] == s[a0] && t[b] == s[b0]);
            }
        }
        r
    }

    /// Logs a transaction-level stall of incarnation `incarnation` of `txn_id`
    /// caused by `by_tx`; the stall start is noted where it is the first stall.
    pub fn log_transaction_stall_add(
        &mut self,
        txn_id: TxnIndex,
        incarnation: Incarnation,
        by_tx: TxnIndex,
        first_stall: bool,
        at: &Moment,
    )
        requires
            old(self).wf(),
            old(self)@.sep.transaction_stalls < u32::MAX,
            old(self)@.sep.transaction_stall_count_by_txn.contains_key(txn_id)
                ==> old(self)@.sep.transaction_stall_count_by_txn[txn_id] < u32::MAX,
        ensures
            final(self).wf(),
            final(self)@ == old(self)@.transaction_stall_add(txn_id, incarnation, by_tx, first_stall, *at),
    {
        let before = self.get_transaction_stall_count();
        let after = self.increment_transaction_stalls();
        self.increment_transaction_stall_by_txn(txn_id);
        let event = LogEvent::TransactionStallAdd {
            timestamp: at.timestamp_us,
            thread_id: at.thread_id,
            txn_id,
            incarnation,
            by_tx,
            transaction_stall_count_before: before,
            transaction_stall_count_after: after,
            first_stall,
            stall_transition: String::from_str("UNSTALLED_TO_STALLED"),
        };
        self.log_event(event, LogLevel::Debug);
        if first_stall {
            self.set_stall_start(txn_id, incarnation, at.monotonic_ns);
        }
    }

    /// Logs the event of a transaction-level unstall of incarnation
    /// `incarnation` of `txn_id`.
    fn log_transaction_unstall_event(
        &mut self,
        txn_id: TxnIndex,
        incarnation: Incarnation,
        by_tx: TxnIndex,
        became_unstalled: bool,
        at: &Moment,
    )
        requires
            old(self).wf(),
        ensures
            final(self).wf(),
            final(self)@ == old(self)@.transaction_unstall_event(
                txn_id,
                incarnation,
                by_tx,
                became_unstalled,
                *at,
            ),
    {
        let before = self.get_transaction_stall_count();
        let after = before.saturating_sub(1);
        let event = LogEvent::TransactionStallRemove {
            timestamp: at.timestamp_us,
            thread_id: at.thread_id,
            txn_id,
            incarnation,
            by_tx,
            transaction_stall_count_before: before,
            transaction_stall_count_after: after,
            became_unstalled,
            stall_transition: String::from_str("STALLED_TO_UNSTALLED"),
        };
        self.log_event(event, LogLevel::Debug);
    }

    /// Counts the time since the stall start of incarnation `incarnation` of
    /// `txn_id`, where there is one, as transaction-level stall time, and
    /// returns the start's position; the start itself stays.
    fn note_unstall_duration(&mut self, txn_id: TxnIndex, incarnation: Incarnation, at: &Moment) -> (r:
        Option<usize>)
        requires
            old(self).wf(),
        ensures
            final(self).wf(),
            final(self)@ == old(self)@.note_unstall_duration(txn_id, incarnation, *at),
            match r {
                Some(i) => has_stall_start(old(self)@.stats.stall_start_times, txn_id, incarnation)
                    && i == stall_start_index(old(self)@.stats.stall_start_times, txn_id, incarnation)
                    && i < old(self)@.stats.stall_start_times.len(),
                None => !has_stall_start(old(self)@.stats.stall_start_times, txn_id, incarnation),
            },
    {
        match self.find_stall_start(txn_id, incarnation) {
            Some(i) => {
                let start_ns = self.execution_stats.stall_start_times[i].start_ns;
                let d = elapsed_micros(start_ns, at.monotonic_ns);
                self.record_transaction_stall_duration(d);
                Some(i)
            },
            None => None,
        }
    }

    /// Logs a transaction-level unstall of incarnation `incarnation` of
    /// `txn_id`; where the transaction became unstalled and its stall start is
    /// known, the start is taken and the stall length counted.
    pub fn log_transaction_stall_remove(
        &mut self,
        txn_id: TxnIndex,
        incarnation: Incarnation,
        by_tx: TxnIndex,
        became_unstalled: bool,
        at: &Moment,
    )
        requires
            old(self).wf(),
        ensures
            final(self).wf(),
            final(self)@ == old(self)@.transaction_stall_remove(
                txn_id,
                incarnation,
                by_tx,
                became_unstalled,
                *at,
            ),
    {
        self.log_transaction_unstall_event(txn_id, incarnation, by_tx, became_unstalled, at);
        if became_unstalled {
            match self.note_unstall_duration(txn_id, incarnation, at) {
                Some(i) => {
                    self.drop_stall_start(i);
                },
                None => {},
            }
        }
    }

    /// Writes a line to the stall event file about a stall (`event_type`
    /// "StallAdd") or an unstall ("StallRemove") of incarnation `incarnation`
    /// of `txn_id`.
    pub fn log_detailed_stall_event(
        &mut self,
        event_type: &str,
        txn_id: TxnIndex,
        incarnation: Incarnation,
        by_tx: TxnIndex,
        stall_count_after: u32,
        first_stall: bool,
        became_unstalled: bool,
        at: &Moment,
    )
        requires
            old(self).wf(),
            event_type@ != "StallAdd"@ ==> stall_count_after < u32::MAX,
        ensures
            final(self).wf(),
            final(self)@ == old(self)@.write_stall_line(
                LineView::StallDetail(
                    stall_detail_line(
                        event_type@,
                        txn_id,
                        incarnation,
                        by_tx,
                        stall_count_after,
                        first_stall,
                        became_unstalled,
                        *at,
                    ),
                ),
            ),
    {
        let is_add = str_equal(event_type, "StallAdd");
        let is_remove = !is_add && str_equal(event_type, "StallRemove");
        let detail = StallDetail {
            event_type: String::from_str(event_type),
            timestamp_us: at.wall_clock_us,
            thread_id: at.thread_id,
            txn_id,
            incarnation,
            by_tx,
            stall_count_before: if is_add {
                stall_count_after.saturating_sub(1)
            } else {
                stall_count_after + 1
            },
            stall_count_after,
            first_stall: if is_add {
                Some(first_stall)
            } else {
                None
            },
            became_unstalled: if is_remove {
                Some(became_unstalled)
            } else {
                None
            },
            stall_transition: if is_add {
                Some(
                    String::from_str(
                        if first_stall {
                            "UNSTALLED_TO_STALLED"
                        } else {
                            "STALLED_TO_MORE_STALLED"
                        },
                    ),
                )
            } else if is_remove {
                Some(
                    String::from_str(
                        if became_unstalled {
                            "STALLED_TO_UNSTALLED"
                        } else {
                            "MORE_STALLED_TO_STALLED"
                        },
                    ),
                )
            } else {
                None
            },
        };
        self.write_stall_line(LogLine::StallDetail(detail));
    }

    /// Writes a line to the stall event file about a stall of `txn_id` that ran
    /// on the monotonic clock from `start_ns` to `end_ns` and lasted
    /// `duration_ns`; the wall-clock start is the end less the elapsed
    /// microseconds.
    pub fn log_stall_duration(
        &mut self,
        txn_id: TxnIndex,
        matched_incarnation: Incarnation,
        start_ns: u64,
        end_ns: u64,
        duration_ns: u64,
        original_incarnation: Option<Incarnation>,
        match_type: &str,
        at: &Moment,
    )
        requires
            old(self).wf(),
            micros_between(start_ns, end_ns) <= at.wall_clock_us,
        ensures
            final(self).wf(),
            final(self)@ == old(self)@.write_stall_line(
                LineView::StallDuration(
                    stall_duration_line(
                        txn_id,
                        matched_incarnation,
                        start_ns,
                        end_ns,
                        duration_ns,
                        original_incarnation,
                        match_type@,
                        *at,
                    ),
                ),
            ),
    {
        let elapsed = elapsed_micros(start_ns, end_ns);
        let line = StallDuration {
            timestamp_us: at.wall_clock_us,
            thread_id: at.thread_id,
            txn_id,
            matched_incarnation,
            original_incarnation,
            match_type: String::from_str(match_type),
            start_timestamp_us: at.wall_clock_us - elapsed,
            end_timestamp_us: at.wall_clock_us,
            stall_duration_ns: duration_ns,
            incarnation_match_success: !str_equal(match_type, "notfound"),
        };
        self.write_stall_line(LogLine::StallDuration(line));
    }

    /// Takes the stall start at position `i` as the start of the stall of
    /// `txn_id` that ends at `at`.
    fn close_stall(
        &mut self,
        i: usize,
        txn_id: TxnIndex,
        incarnation: Incarnation,
        match_type: &str,
        at: &Moment,
    )
        requires
            old(self).wf(),
            i < old(self)@.stats.stall_start_times.len(),
            micros_between(old(self)@.stats.stall_start_times[i as int].start_ns, at.monotonic_ns)
                <= at.wall_clock_us,
        ensures
            final(self).wf(),
            final(self)@ == old(self)@.close_stall(i as int, txn_id, incarnation, match_type@, *at),
    {
        let e = self.drop_stall_start(i);
        let ns = elapsed_nanos(e.start_ns, at.monotonic_ns);
        self.record_stall_time(ns);
        self.log_stall_duration(
            txn_id,
            e.incarnation,
            e.start_ns,
            at.monotonic_ns,
            ns,
            Some(incarnation),
            match_type,
            at,
        );
    }

    /// Logs a stall of incarnation `incarnation` of `txn_id` caused by
    /// `by_tx`: as a transaction-level stall, as a stall event with its detail
    /// line, and as a scheduler event.
    pub fn log_stall_add(
        &mut self,
        txn_id: TxnIndex,
        incarnation: Incarnation,
        by_tx: TxnIndex,
        stall_count_after: u32,
        first_stall: bool,
        at: &Moment,
    )
        requires
            old(self).wf(),
            old(self)@.sep.transaction_stalls < u32::MAX,
            old(self)@.sep.transaction_stall_count_by_txn.contains_key(txn_id)
                ==> old(self)@.sep.transaction_stall_count_by_txn[txn_id] < u32::MAX,
        ensures
            final(self).wf(),
            final(self)@ == old(self)@.stall_add(
                txn_id,
                incarnation,
                by_tx,
                stall_count_after,
                first_stall,
                *at,
            ),
    {
        self.log_transaction_stall_add(txn_id, incarnation, by_tx, first_stall, at);
        self.increment_stall_events();
        self.log_detailed_stall_event(
            "StallAdd",
            txn_id,
            incarnation,
            by_tx,
            stall_count_after,
            first_stall,
            false,
            at,
        );
        if first_stall {
            self.set_stall_start(txn_id, incarnation, at.monotonic_ns);
        }
        let event = LogEvent::StallAdd {
            timestamp: at.timestamp_us,
            thread_id: at.thread_id,
            transaction_id: txn_id,
            incarnation,
            by_tx,
            stall_count_after,
            first_stall,
        };
        self.log_event(event, LogLevel::Debug);
    }

    /// Ends the stall of incarnation `incarnation` of `txn_id` at `at`.
    fn finish_stall(&mut self, txn_id: TxnIndex, incarnation: Incarnation, at: &Moment)
        requires
            old(self).wf(),
            old(self)@.unstall_fits(txn_id, incarnation, *at),
        ensures
            final(self).wf(),
            final(self)@ == old(self)@.finish_stall(txn_id, incarnation, *at),
    {
        let ghost pre = self@;
        match self.find_stall_start(txn_id, incarnation) {
            Some(i) => {
                assert(pre.finish_stall(txn_id, incarnation, *at) == pre.close_stall(
                    i as int,
                    txn_id,
                    incarnation,
                    "exact"@,
                    *at,
                ));
                self.close_stall(i, txn_id, incarnation, "exact", at);
            },
            None => {
                match self.find_first_stall_of(txn_id) {
                    Some(i) => {
                        assert(pre.finish_stall(txn_id, incarnation, *at) == pre.close_stall(
                            i as int,
                            txn_id,
                            incarnation,
                            "fallback"@,
                            *at,
                        ));
                        self.close_stall(i, txn_id, incarnation, "fallback", at);
                    },
                    None => {
                        self.log_stall_duration(
                            txn_id,
                            incarnation,
                            at.monotonic_ns,
                            at.monotonic_ns,
                            0,
                            Some(incarnation),
                            "notfound",
                            at,
                        );
                    },
                }
            },
        }
    }

    /// Logs an unstall of incarnation `incarnation` of `txn_id` caused by
    /// `by_tx`. Where the transaction became unstalled, the start of its stall
    /// is looked up (that of the same incarnation, else the first of any
    /// incarnation of the transaction), its length is counted, and a duration
    /// line is written ("exact", "fallback" or "notfound").
    pub fn log_stall_remove(
        &mut self,
        txn_id: TxnIndex,
        incarnation: Incarnation,
        by_tx: TxnIndex,
        stall_count_after: u32,
        became_unstalled: bool,
        at: &Moment,
    )
        requires
            old(self).wf(),
            stall_count_after < u32::MAX,
            became_unstalled ==> old(self)@.unstall_fits(txn_id, incarnation, *at),
        ensures
            final(self).wf(),
            final(self)@ == old(self)@.stall_remove(
                txn_id,
                incarnation,
                by_tx,
                stall_count_after,
                became_unstalled,
                *at,
            ),
    {
        self.log_transaction_unstall_event(txn_id, incarnation, by_tx, became_unstalled, at);
        proof {
            reveal_strlit("StallAdd");
            reveal_strlit("StallRemove");
        }
        self.log_detailed_stall_event(
            "StallRemove",
            txn_id,
            incarnation,
            by_tx,
            stall_count_after,
            false,
            became_unstalled,
            at,
        );
        if became_unstalled {
            self.note_unstall_duration(txn_id, incarnation, at);
            self.finish_stall(txn_id, incarnation, at);
        }
        let event = LogEvent::StallRemove {
            timestamp: at.timestamp_us,
            thread_id: at.thread_id,
            transaction_id: txn_id,
            incarnation,
            by_tx,
            stall_count_after,
            became_unstalled,
        };
        self.log_event(event, LogLevel::Debug);
    }

    /// Logs the start of a system-level stall of worker `worker_id`, counts it
    /// and notes its start.
    pub fn log_system_stall_start(
        &mut self,
        worker_id: u32,
        total_workers: u32,
        reason: &str,
        at: &Moment,
    )
        requires
            old(self).wf(),
            old(self)@.sep.system_stalls < u32::MAX,
            old(self)@.sep.system_stall_count_by_worker.contains_key(worker_id)
                ==> old(self)@.sep.system_stall_count_by_worker[worker_id] < u32::MAX,
        ensures
            final(self).wf(),
            final(self)@ == old(self)@.system_stall_start(worker_id, total_workers, reason@, *at),
    {
        let before = self.get_system_stall_count();
        let after = self.increment_system_stalls();
        self.increment_system_stall_by_worker(worker_id);
        self.start_system_stall(worker_id, at);
        let event = LogEvent::SystemStallStart {
            timestamp: at.timestamp_us,
            thread_id: at.thread_id,
            worker_id,
            total_workers,
            reason: String::from_str(reason),
            scheduler_state: String::from_str("ALL_TRANSACTIONS_WAITING"),
            system_stall_count_before: before,
            system_stall_count_after: after,
            stall_transition: String::from_str("ACTIVE_TO_STALLED"),
        };
        self.log_event(event, LogLevel::Debug);
    }

    /// Logs the end of the system-level stall of worker `worker_id` with its
    /// length (zero where no stall of the worker was ongoing).
    pub fn log_system_stall_end(
        &mut self,
        worker_id: u32,
        total_workers: u32,
        reason: &str,
        at: &Moment,
    )
        requires
            old(self).wf(),
        ensures
            final(self).wf(),
            final(self)@ == old(self)@.system_stall_end(worker_id, total_workers, reason@, *at),
    {
        let before = self.get_system_stall_count();
        let after = before.saturating_sub(1);
        let duration_us = match self.end_system_stall(worker_id, at) {
            Some(d) => d,
            None => 0,
        };
        let event = LogEvent::SystemStallEnd {
            timestamp: at.timestamp_us,
            thread_id: at.thread_id,
            worker_id,
            total_workers,
            reason: String::from_str(reason),
            scheduler_state: String::from_str("TASK_DISPATCHED"),
            system_stall_count_before: before,
            system_stall_count_after: after,
            stall_transition: String::from_str("STALLED_TO_ACTIVE"),
            duration_us,
        };
        self.log_event(event, LogLevel::Debug);
    }

    /// Logs the start of a block; the read sample rate is given by its bit pattern.
    pub fn log_block_start(&mut self, block_id: &str, dataset: &str, tx_count: u32, concurrency_level: u32, sample_period_ms: u32, read_sample_rate_bits: u64, source_csv: &str, at: &Moment)
        requires
            old(self).wf(),
        ensures
            final(self).wf(),
            final(self)@ == old(self)@.log(
                LogEventView::BlockStart {
                    timestamp: at.timestamp_us,
                    thread_id: 0,
                    block_id: block_id@,
                    dataset: dataset@,
                    tx_count: tx_count,
                    concurrency_level: concurrency_level,
                    sample_period_ms: sample_period_ms,
                    read_sample_rate_bits: read_sample_rate_bits,
                    source_csv: source_csv@,
                },
                LogLevel::Info,
            ),
    {
        let event = LogEvent::BlockStart {
            timestamp: at.timestamp_us,
            thread_id: 0,
            block_id: String::from_str(block_id),
            dataset: String::from_str(dataset),
            tx_count: tx_count,
            concurrency_level: concurrency_level,
            sample_period_ms: sample_period_ms,
            read_sample_rate_bits: read_sample_rate_bits,
            source_csv: String::from_str(source_csv),
        };
        self.log_event(event, LogLevel::Info);
    }

    /// Logs a sample of the scheduler state; the three ratios are given by their bit patterns.
    pub fn log_scheduler_sample(&mut self, execution_min_index: TxnIndex, validation_min_index: TxnIndex, executing_tasks: u32, validating_tasks: u32, active_tasks: u32, done_marker: bool, scheduler_efficiency_bits: u64, avg_task_queue_depth_bits: u64, parallelism_utilization_bits: u64, contention_hotspots: Vec<String>, at: &Moment)
        requires
            old(self).wf(),
        ensures
            final(self).wf(),
            final(self)@ == old(self)@.log(
                LogEventView::SchedulerSample {
                    timestamp: at.timestamp_us,
                    thread_id: 0,
                    execution_min_index: execution_min_index,
                    validation_min_index: validation_min_index,
                    executing_tasks: executing_tasks,
                    validating_tasks: validating_tasks,
                    active_tasks: active_tasks,
                    done_marker: done_marker,
                    scheduler_efficiency_bits: scheduler_efficiency_bits,
                    avg_task_queue_depth_bits: avg_task_queue_depth_bits,
                    parallelism_utilization_bits: parallelism_utilization_bits,
                    contention_hotspots: strings_view(contention_hotspots@),
                },
                LogLevel::Debug,
            ),
    {
        let event = LogEvent::SchedulerSample {
            timestamp: at.timestamp_us,
            thread_id: 0,
            execution_min_index: execution_min_index,
            validation_min_index: validation_min_index,
            executing_tasks: executing_tasks,
            validating_tasks: validating_tasks,
            active_tasks: active_tasks,
            done_marker: done_marker,
            scheduler_efficiency_bits: scheduler_efficiency_bits,
            avg_task_queue_depth_bits: avg_task_queue_depth_bits,
            parallelism_utilization_bits: parallelism_utilization_bits,
            contention_hotspots: contention_hotspots,
        };
        self.log_event(event, LogLevel::Debug);
    }

    /// Logs a state transition in the scheduler and records the calling thread.
    pub fn log_scheduler_state_transition(&mut self, old_state: &str, new_state: &str, transaction_id: Option<TxnIndex>, incarnation: Option<Incarnation>, trigger_reason: &str, at: &Moment)
        requires
            old(self).wf(),
        ensures
            final(self).wf(),
            final(self)@ == old(self)@.record_thread(at.thread_id).log(
                LogEventView::SchedulerStateTransition {
                    timestamp: at.timestamp_us,
                    thread_id: at.thread_id,
                    transaction_id: transaction_id,
                    incarnation: incarnation,
                    old_state: old_state@,
                    new_state: new_state@,
                    trigger_reason: trigger_reason@,
                },
                LogLevel::Debug,
            ),
    {
        self.record_participating_thread(at.thread_id);
        let event = LogEvent::SchedulerStateTransition {
            timestamp: at.timestamp_us,
            thread_id: at.thread_id,
            transaction_id: transaction_id,
            incarnation: incarnation,
            old_state: String::from_str(old_state),
            new_state: String::from_str(new_state),
            trigger_reason: String::from_str(trigger_reason),
        };
        self.log_event(event, LogLevel::Debug);
    }

    /// Logs that a transaction enters the VM and records the calling thread.
    pub fn log_execution_start(&mut self, txn_id: TxnIndex, incarnation: Incarnation, execution_phase: &str, at: &Moment)
        requires
            old(self).wf(),
        ensures
            final(self).wf(),
            final(self)@ == old(self)@.record_thread(at.thread_id).log(
                LogEventView::ExecutionStart {
                    timestamp: at.timestamp_us,
                    thread_id: at.thread_id,
                    transaction_id: txn_id,
                    incarnation: incarnation,
                    execution_phase: execution_phase@,
                },
                LogLevel::Debug,
            ),
    {
        self.record_participating_thread(at.thread_id);
        let event = LogEvent::ExecutionStart {
            timestamp: at.timestamp_us,
            thread_id: at.thread_id,
            transaction_id: txn_id,
            incarnation: incarnation,
            execution_phase: String::from_str(execution_phase),
        };
        self.log_event(event, LogLevel::Debug);
    }

    /// Logs that the VM finished a transaction and records the calling thread.
    pub fn log_execution_finish(&mut self, txn_id: TxnIndex, incarnation: Incarnation, result: &str, exec_duration_us: u64, gas_used: u64, read_set_size: usize, write_set_size: usize, resource_reads: usize, resource_writes: usize, module_reads: usize, module_writes: usize, delayed_field_reads: usize, delayed_field_writes: usize, at: &Moment)
        requires
            old(self).wf(),
        ensures
            final(self).wf(),
            final(self)@ == old(self)@.record_thread(at.thread_id).log(
                LogEventView::ExecutionFinish {
                    timestamp: at.timestamp_us,
                    thread_id: at.thread_id,
                    transaction_id: txn_id,
                    incarnation: incarnation,
                    result: result@,
                    exec_duration_us: exec_duration_us,
                    gas_used: gas_used,
                    read_set_size: read_set_size,
                    write_set_size: write_set_size,
                    resource_reads: resource_reads,
                    resource_writes: resource_writes,
                    module_reads: module_reads,
                    module_writes: module_writes,
                    delayed_field_reads: delayed_field_reads,
                    delayed_field_writes: delayed_field_writes,
                },
                LogLevel::Info,
            ),
    {
        self.record_participating_thread(at.thread_id);
        let event = LogEvent::ExecutionFinish {
            timestamp: at.timestamp_us,
            thread_id: at.thread_id,
            transaction_id: txn_id,
            incarnation: incarnation,
            result: String::from_str(result),
            exec_duration_us: exec_duration_us,
            gas_used: gas_used,
            read_set_size: read_set_size,
            write_set_size: write_set_size,
            resource_reads: resource_reads,
            resource_writes: resource_writes,
            module_reads: module_reads,
            module_writes: module_writes,
            delayed_field_reads: delayed_field_reads,
            delayed_field_writes: delayed_field_writes,
        };
        self.log_event(event, LogLevel::Info);
    }

    /// Logs a write to the multi-version hash map and records the calling thread.
    pub fn log_mv_write(&mut self, txn_id: TxnIndex, incarnation: Incarnation, state_key: &str, value_size: usize, write_type: &str, at: &Moment)
        requires
            old(self).wf(),
        ensures
            final(self).wf(),
            final(self)@ == old(self)@.record_thread(at.thread_id).log(
                LogEventView::MVWrite {
                    timestamp: at.timestamp_us,
                    thread_id: at.thread_id,
                    transaction_id: txn_id,
                    incarnation: incarnation,
                    state_key: state_key@,
                    value_size: value_size,
                    write_type: write_type@,
                },
                LogLevel::Debug,
            ),
    {
        self.record_participating_thread(at.thread_id);
        let event = LogEvent::MVWrite {
            timestamp: at.timestamp_us,
            thread_id: at.thread_id,
            transaction_id: txn_id,
            incarnation: incarnation,
            state_key: String::from_str(state_key),
            value_size: value_size,
            write_type: String::from_str(write_type),
        };
        self.log_event(event, LogLevel::Debug);
    }

    /// Logs that the abort of a transaction begins.
    pub fn log_abort_initiated(&mut self, txn_id: TxnIndex, incarnation: Incarnation, abort_reason: &str, retry_count: u32, dependencies: Vec<TxnIndex>, at: &Moment)
        requires
            old(self).wf(),
        ensures
            final(self).wf(),
            final(self)@ == old(self)@.log(
                LogEventView::AbortInitiated {
                    timestamp: at.timestamp_us,
                    thread_id: at.thread_id,
                    transaction_id: txn_id,
                    incarnation: incarnation,
                    abort_reason: abort_reason@,
                    retry_count: retry_count,
                    dependencies: dependencies@,
                },
                LogLevel::Info,
            ),
    {
        let event = LogEvent::AbortInitiated {
            timestamp: at.timestamp_us,
            thread_id: at.thread_id,
            transaction_id: txn_id,
            incarnation: incarnation,
            abort_reason: String::from_str(abort_reason),
            retry_count: retry_count,
            dependencies: dependencies,
        };
        self.log_event(event, LogLevel::Info);
    }

    /// Logs a stall spreading from one transaction to others.
    pub fn log_stall_propagation(&mut self, owner_txn: TxnIndex, owner_incarnation: Incarnation, affected_txns: Vec<TxnIndex>, affected_incarnations: Vec<Incarnation>, propagation_type: &str, reason: &str, at: &Moment)
        requires
            old(self).wf(),
        ensures
            final(self).wf(),
            final(self)@ == old(self)@.log(
                LogEventView::StallPropagation {
                    timestamp: at.timestamp_us,
                    thread_id: at.thread_id,
                    owner_txn: owner_txn,
                    owner_incarnation: Some(owner_incarnation),
                    affected_txns: affected_txns@,
                    affected_incarnations: affected_incarnations@,
                    propagation_type: propagation_type@,
                    reason: reason@,
                },
                LogLevel::Debug,
            ),
    {
        let event = LogEvent::StallPropagation {
            timestamp: at.timestamp_us,
            thread_id: at.thread_id,
            owner_txn: owner_txn,
            owner_incarnation: Some(owner_incarnation),
            affected_txns: affected_txns,
            affected_incarnations: affected_incarnations,
            propagation_type: String::from_str(propagation_type),
            reason: String::from_str(reason),
        };
        self.log_event(event, LogLevel::Debug);
    }

    /// Logs the result of a validation: "Pass" or "Fail".
    pub fn log_transaction_validate(&mut self, txn_id: TxnIndex, incarnation: Incarnation, validation_result: bool, _description: &str, at: &Moment)
        requires
            old(self).wf(),
        ensures
            final(self).wf(),
            final(self)@ == old(self)@.log(
                LogEventView::ValidationFinish {
                    timestamp: at.timestamp_us,
                    thread_id: at.thread_id,
                    transaction_id: txn_id,
                    incarnation: incarnation,
                    result: if validation_result { "Pass"@ } else { "Fail"@ },
                },
                LogLevel::Info,
            ),
    {
        let event = LogEvent::ValidationFinish {
            timestamp: at.timestamp_us,
            thread_id: at.thread_id,
            transaction_id: txn_id,
            incarnation: incarnation,
            result: String::from_str(if validation_result { "Pass" } else { "Fail" }),
        };
        self.log_event(event, LogLevel::Info);
    }

    /// Logs the read and write sets of a transaction; a copy of the event
    /// also goes to the read-write log file.
    pub fn log_readwrite_set_change(&mut self, txn_id: TxnIndex, incarnation: Incarnation, read_keys: Vec<String>, write_keys: Vec<String>, resource_reads: usize, resource_writes: usize, module_reads: usize, module_writes: usize, delayed_field_reads: usize, delayed_field_writes: usize, at: &Moment)
        requires
            old(self).wf(),
        ensures
            final(self).wf(),
            final(self)@ == old(self)@.log(
                LogEventView::ReadWriteSetChange {
                    timestamp: at.timestamp_us,
                    thread_id: at.thread_id,
                    transaction_id: txn_id,
                    incarnation: incarnation,
                    read_keys: strings_view(read_keys@),
                    write_keys: strings_view(write_keys@),
                    resource_reads: resource_reads,
                    resource_writes: resource_writes,
                    module_reads: module_reads,
                    module_writes: module_writes,
                    delayed_field_reads: delayed_field_reads,
                    delayed_field_writes: delayed_field_writes,
                    aggregator_v1_reads: 0,
                    aggregator_v1_writes: 0,
                    resource_group_reads: 0,
                    resource_group_writes: 0,
                    read_set_delta: 0,
                    write_set_delta: 0,
                    change_trigger: "execution"@,
                },
                LogLevel::Debug,
            ).log_to(
                LogEventView::ReadWriteSetChange {
                    timestamp: at.timestamp_us,
                    thread_id: at.thread_id,
                    transaction_id: txn_id,
                    incarnation: incarnation,
                    read_keys: strings_view(read_keys@),
                    write_keys: strings_view(write_keys@),
                    resource_reads: resource_reads,
                    resource_writes: resource_writes,
                    module_reads: module_reads,
                    module_writes: module_writes,
                    delayed_field_reads: delayed_field_reads,
                    delayed_field_writes: delayed_field_writes,
                    aggregator_v1_reads: 0,
                    aggregator_v1_writes: 0,
                    resource_group_reads: 0,
                    resource_group_writes: 0,
                    read_set_delta: 0,
                    write_set_delta: 0,
                    change_trigger: "execution"@,
                },
                LogLevel::Debug,
                LogFileType::ReadWrite,
            ),
    {
        let copy = LogEvent::ReadWriteSetChange {
            timestamp: at.timestamp_us,
            thread_id: at.thread_id,
            transaction_id: txn_id,
            incarnation: incarnation,
            read_keys: Self::copy_strings(&read_keys),
            write_keys: Self::copy_strings(&write_keys),
            resource_reads: resource_reads,
            resource_writes: resource_writes,
            module_reads: module_reads,
            module_writes: module_writes,
            delayed_field_reads: delayed_field_reads,
            delayed_field_writes: delayed_field_writes,
            aggregator_v1_reads: 0,
            aggregator_v1_writes: 0,
            resource_group_reads: 0,
            resource_group_writes: 0,
            read_set_delta: 0,
            write_set_delta: 0,
            change_trigger: String::from_str("execution"),
        };
        let event = LogEvent::ReadWriteSetChange {
            timestamp: at.timestamp_us,
            thread_id: at.thread_id,
            transaction_id: txn_id,
            incarnation: incarnation,
            read_keys: read_keys,
            write_keys: write_keys,
            resource_reads: resource_reads,
            resource_writes: resource_writes,
            module_reads: module_reads,
            module_writes: module_writes,
            delayed_field_reads: delayed_field_reads,
            delayed_field_writes: delayed_field_writes,
            aggregator_v1_reads: 0,
            aggregator_v1_writes: 0,
            resource_group_reads: 0,
            resource_group_writes: 0,
            read_set_delta: 0,
            write_set_delta: 0,
            change_trigger: String::from_str("execution"),
        };
        self.log_event(event, LogLevel::Debug);
        self.log_event_to(copy, LogLevel::Debug, LogFileType::ReadWrite);
    }

    /// Logs a performance metric; its value is given by its bit pattern. A
    /// copy of the event also goes to the performance log file.
    pub fn log_performance_metric(&mut self, metric_name: &str, metric_value_bits: u64, txn_id: Option<TxnIndex>, additional_data: Vec<(String, String)>, at: &Moment)
        requires
            old(self).wf(),
        ensures
            final(self).wf(),
            final(self)@ == old(self)@.log(
                LogEventView::PerformanceMetric {
                    timestamp: at.timestamp_us,
                    thread_id: at.thread_id,
                    metric_name: metric_name@,
                    metric_value_bits: metric_value_bits,
                    transaction_id: txn_id,
                    incarnation: Some(0),
                    metric_unit: "count"@,
                    measurement_context: "general"@,
                    additional_data: pairs_view(additional_data@),
                },
                LogLevel::Info,
            ).log_to(
                LogEventView::PerformanceMetric {
                    timestamp: at.timestamp_us,
                    thread_id: at.thread_id,
                    metric_name: metric_name@,
                    metric_value_bits: metric_value_bits,
                    transaction_id: txn_id,
                    incarnation: Some(0),
                    metric_unit: "count"@,
                    measurement_context: "general"@,
                    additional_data: pairs_view(additional_data@),
                },
                LogLevel::Info,
                LogFileType::Performance,
            ),
    {
        let copy = LogEvent::PerformanceMetric {
            timestamp: at.timestamp_us,
            thread_id: at.thread_id,
            metric_name: String::from_str(metric_name),
            metric_value_bits: metric_value_bits,
            transaction_id: txn_id,
            incarnation: Some(0),
            metric_unit: String::from_str("count"),
            measurement_context: String::from_str("general"),
            additional_data: Self::copy_pairs(&additional_data),
        };
        let event = LogEvent::PerformanceMetric {
            timestamp: at.timestamp_us,
            thread_id: at.thread_id,
            metric_name: String::from_str(metric_name),
            metric_value_bits: metric_value_bits,
            transaction_id: txn_id,
            incarnation: Some(0),
            metric_unit: String::from_str("count"),
            measurement_context: String::from_str("general"),
            additional_data: additional_data,
        };
        self.log_event(event, LogLevel::Info);
        self.log_event_to(copy, LogLevel::Info, LogFileType::Performance);
    }

    /// Logs that the scheduler assigned a task (a count of one).
    pub fn log_scheduler_task_assignment(&mut self, at: &Moment)
        requires
            old(self).wf(),
        ensures
            final(self).wf(),
            final(self)@ == old(self)@.log(
                LogEventView::SchedulerMetric {
                    timestamp: at.timestamp_us,
                    thread_id: at.thread_id,
                    metric_name: "scheduler_task_assignment"@,
                    metric_value_bits: ONE_BITS,
                    metric_unit: "count"@,
                    measurement_context: "scheduler"@,
                    additional_data: Seq::empty(),
                },
                LogLevel::Info,
            ),
    {
        let additional_data: Vec<(String, String)> = Vec::new();
        assert(pairs_view(additional_data@) =~= Seq::empty());
        let event = LogEvent::SchedulerMetric {
            timestamp: at.timestamp_us,
            thread_id: at.thread_id,
            metric_name: String::from_str("scheduler_task_assignment"),
            metric_value_bits: ONE_BITS,
            metric_unit: String::from_str("count"),
            measurement_context: String::from_str("scheduler"),
            additional_data,
        };
        self.log_event(event, LogLevel::Info);
    }

    /// Logs that a task is suspended.
    pub fn log_task_suspend(&mut self, txn_id: TxnIndex, incarnation: Incarnation, suspend_reason: &str, depends_on_tx: Option<TxnIndex>, at: &Moment)
        requires
            old(self).wf(),
        ensures
            final(self).wf(),
            final(self)@ == old(self)@.log(
                LogEventView::TaskSuspend {
                    timestamp: at.timestamp_us,
                    thread_id: at.thread_id,
                    transaction_id: txn_id,
                    incarnation: incarnation,
                    suspend_reason: suspend_reason@,
                    depends_on_tx: depends_on_tx,
                },
                LogLevel::Debug,
            ),
    {
        let event = LogEvent::TaskSuspend {
            timestamp: at.timestamp_us,
            thread_id: at.thread_id,
            transaction_id: txn_id,
            incarnation: incarnation,
            suspend_reason: String::from_str(suspend_reason),
            depends_on_tx: depends_on_tx,
        };
        self.log_event(event, LogLevel::Debug);
    }

    /// Logs that a task resumes.
    pub fn log_task_resume(&mut self, txn_id: TxnIndex, incarnation: Incarnation, resume_reason: &str, resolved_by_tx: Option<TxnIndex>, at: &Moment)
        requires
            old(self).wf(),
        ensures
            final(self).wf(),
            final(self)@ == old(self)@.log(
                LogEventView::TaskResume {
                    timestamp: at.timestamp_us,
                    thread_id: at.thread_id,
                    transaction_id: txn_id,
                    incarnation: incarnation,
                    resume_reason: resume_reason@,
                    resolved_by_tx: resolved_by_tx,
                },
                LogLevel::Debug,
            ),
    {
        let event = LogEvent::TaskResume {
            timestamp: at.timestamp_us,
            thread_id: at.thread_id,
            transaction_id: txn_id,
            incarnation: incarnation,
            resume_reason: String::from_str(resume_reason),
            resolved_by_tx: resolved_by_tx,
        };
        self.log_event(event, LogLevel::Debug);
    }

    /// Logs a round of stall propagation.
    pub fn log_stall_propagate_tick(&mut self, source_tx: TxnIndex, affected_range: Vec<TxnIndex>, propagated_count: u32, propagation_type: &str, at: &Moment)
        requires
            old(self).wf(),
        ensures
            final(self).wf(),
            final(self)@ == old(self)@.log(
                LogEventView::StallPropagateTick {
                    timestamp: at.timestamp_us,
                    thread_id: at.thread_id,
                    source_tx: source_tx,
                    affected_range: affected_range@,
                    propagated_count: propagated_count,
                    propagation_type: propagation_type@,
                },
                LogLevel::Debug,
            ),
    {
        let event = LogEvent::StallPropagateTick {
            timestamp: at.timestamp_us,
            thread_id: at.thread_id,
            source_tx: source_tx,
            affected_range: affected_range,
            propagated_count: propagated_count,
            propagation_type: String::from_str(propagation_type),
        };
        self.log_event(event, LogLevel::Debug);
    }

    /// Logs an advance of the execution waterline.
    pub fn log_waterline_advance(&mut self, executed_once_max_idx_after: TxnIndex, advanced_by_tx: TxnIndex, previous_waterline: TxnIndex, at: &Moment)
        requires
            old(self).wf(),
        ensures
            final(self).wf(),
            final(self)@ == old(self)@.log(
                LogEventView::WaterlineAdvance {
                    timestamp: at.timestamp_us,
                    thread_id: at.thread_id,
                    executed_once_max_idx_after: executed_once_max_idx_after,
                    advanced_by_tx: advanced_by_tx,
                    previous_waterline: previous_waterline,
                },
                LogLevel::Info,
            ),
    {
        let event = LogEvent::WaterlineAdvance {
            timestamp: at.timestamp_us,
            thread_id: at.thread_id,
            executed_once_max_idx_after: executed_once_max_idx_after,
            advanced_by_tx: advanced_by_tx,
            previous_waterline: previous_waterline,
        };
        self.log_event(event, LogLevel::Info);
    }

    /// Logs the first phase of a two-phase abort.
    pub fn log_abort_start(&mut self, txn_id: TxnIndex, incarnation: Incarnation, by_tx: TxnIndex, result: &str, at: &Moment)
        requires
            old(self).wf(),
        ensures
            final(self).wf(),
            final(self)@ == old(self)@.log(
                LogEventView::AbortStart {
                    timestamp: at.timestamp_us,
                    thread_id: at.thread_id,
                    transaction_id: txn_id,
                    incarnation: incarnation,
                    by_tx: by_tx,
                    result: result@,
                },
                LogLevel::Info,
            ),
    {
        let event = LogEvent::AbortStart {
            timestamp: at.timestamp_us,
            thread_id: at.thread_id,
            transaction_id: txn_id,
            incarnation: incarnation,
            by_tx: by_tx,
            result: String::from_str(result),
        };
        self.log_event(event, LogLevel::Info);
    }

    /// Logs the second phase of a two-phase abort.
    pub fn log_abort_finish(&mut self, txn_id: TxnIndex, incarnation: Incarnation, by_tx: TxnIndex, result: &str, new_incarnation: Option<Incarnation>, at: &Moment)
        requires
            old(self).wf(),
        ensures
            final(self).wf(),
            final(self)@ == old(self)@.log(
                LogEventView::AbortFinish {
                    timestamp: at.timestamp_us,
                    thread_id: at.thread_id,
                    transaction_id: txn_id,
                    incarnation: incarnation,
                    by_tx: by_tx,
                    result: result@,
                    new_incarnation: new_incarnation,
                },
                LogLevel::Info,
            ),
    {
        let event = LogEvent::AbortFinish {
            timestamp: at.timestamp_us,
            thread_id: at.thread_id,
            transaction_id: txn_id,
            incarnation: incarnation,
            by_tx: by_tx,
            result: String::from_str(result),
            new_incarnation: new_incarnation,
        };
        self.log_event(event, LogLevel::Info);
    }

    /// Logs an invalidation edge from a lower writer to a higher transaction.
    pub fn log_invalidation_edge(&mut self, by_tx: TxnIndex, to_tx: TxnIndex, to_incarnation: Option<Incarnation>, key: Option<String>, at: &Moment)
        requires
            old(self).wf(),
        ensures
            final(self).wf(),
            final(self)@ == old(self)@.log(
                LogEventView::InvalidationEdge {
                    timestamp: at.timestamp_us,
                    thread_id: at.thread_id,
                    by_tx: by_tx,
                    to_tx: to_tx,
                    to_incarnation: to_incarnation,
                    key: opt_string_view(key),
                },
                LogLevel::Debug,
            ),
    {
        let event = LogEvent::InvalidationEdge {
            timestamp: at.timestamp_us,
            thread_id: at.thread_id,
            by_tx: by_tx,
            to_tx: to_tx,
            to_incarnation: to_incarnation,
            key: key,
        };
        self.log_event(event, LogLevel::Debug);
    }

    /// Logs a transition of the commit marker of a transaction.
    pub fn log_commit_marker_transition(&mut self, txn_id: TxnIndex, from_marker: &str, to_marker: &str, at: &Moment)
        requires
            old(self).wf(),
        ensures
            final(self).wf(),
            final(self)@ == old(self)@.log(
                LogEventView::CommitMarkerTransition {
                    timestamp: at.timestamp_us,
                    thread_id: at.thread_id,
                    transaction_id: txn_id,
                    from_marker: from_marker@,
                    to_marker: to_marker@,
                },
                LogLevel::Info,
            ),
    {
        let event = LogEvent::CommitMarkerTransition {
            timestamp: at.timestamp_us,
            thread_id: at.thread_id,
            transaction_id: txn_id,
            from_marker: String::from_str(from_marker),
            to_marker: String::from_str(to_marker),
        };
        self.log_event(event, LogLevel::Info);
    }

    /// Logs the start of post-commit processing.
    pub fn log_post_commit_start(&mut self, txn_id: TxnIndex, hook_kind: &str, at: &Moment)
        requires
            old(self).wf(),
        ensures
            final(self).wf(),
            final(self)@ == old(self)@.log(
                LogEventView::PostCommitStart {
                    timestamp: at.timestamp_us,
                    thread_id: at.thread_id,
                    transaction_id: txn_id,
                    hook_kind: hook_kind@,
                },
                LogLevel::Info,
            ),
    {
        let event = LogEvent::PostCommitStart {
            timestamp: at.timestamp_us,
            thread_id: at.thread_id,
            transaction_id: txn_id,
            hook_kind: String::from_str(hook_kind),
        };
        self.log_event(event, LogLevel::Info);
    }

    /// Logs the end of post-commit processing.
    pub fn log_post_commit_finish(&mut self, txn_id: TxnIndex, hook_kind: &str, duration_us: u64, at: &Moment)
        requires
            old(self).wf(),
        ensures
            final(self).wf(),
            final(self)@ == old(self)@.log(
                LogEventView::PostCommitFinish {
                    timestamp: at.timestamp_us,
                    thread_id: at.thread_id,
                    transaction_id: txn_id,
                    hook_kind: hook_kind@,
                    duration_us: duration_us,
                },
                LogLevel::Info,
            ),
    {
        let event = LogEvent::PostCommitFinish {
            timestamp: at.timestamp_us,
            thread_id: at.thread_id,
            transaction_id: txn_id,
            hook_kind: String::from_str(hook_kind),
            duration_us: duration_us,
        };
        self.log_event(event, LogLevel::Info);
    }

    /// Logs that a worker picked a task.
    pub fn log_task_picked_v2(&mut self, task_kind: &str, tx_index: TxnIndex, incarnation: Incarnation, is_first_execution: bool, from_queue: &str, at: &Moment)
        requires
            old(self).wf(),
        ensures
            final(self).wf(),
            final(self)@ == old(self)@.log(
                LogEventView::TaskPickedV2 {
                    timestamp: at.timestamp_us,
                    picked_ts_us: at.timestamp_us,
                    thread_id: at.thread_id,
                    task_kind: task_kind@,
                    tx_index: tx_index,
                    incarnation: incarnation,
                    is_first_execution: is_first_execution,
                    from_queue: from_queue@,
                },
                LogLevel::Debug,
            ),
    {
        let event = LogEvent::TaskPickedV2 {
            timestamp: at.timestamp_us,
            picked_ts_us: at.timestamp_us,
            thread_id: at.thread_id,
            task_kind: String::from_str(task_kind),
            tx_index: tx_index,
            incarnation: incarnation,
            is_first_execution: is_first_execution,
            from_queue: String::from_str(from_queue),
        };
        self.log_event(event, LogLevel::Debug);
    }

    /// Logs that a worker finished a task.
    pub fn log_task_finished_v2(&mut self, task_kind: &str, tx_index: TxnIndex, incarnation: Incarnation, result: &str, processing_time_us: u64, is_reexecution: bool, first_reexecution_deferred: bool, executed_once_watermark: TxnIndex, defer_reason: Option<String>, at: &Moment)
        requires
            old(self).wf(),
        ensures
            final(self).wf(),
            final(self)@ == old(self)@.log(
                LogEventView::TaskFinishedV2 {
                    timestamp: at.timestamp_us,
                    finished_ts_us: at.timestamp_us,
                    thread_id: at.thread_id,
                    task_kind: task_kind@,
                    tx_index: tx_index,
                    incarnation: incarnation,
                    result: result@,
                    processing_time_us: processing_time_us,
                    is_reexecution: is_reexecution,
                    first_reexecution_deferred: first_reexecution_deferred,
                    executed_once_watermark: executed_once_watermark,
                    defer_reason: opt_string_view(defer_reason),
                },
                LogLevel::Debug,
            ),
    {
        let event = LogEvent::TaskFinishedV2 {
            timestamp: at.timestamp_us,
            finished_ts_us: at.timestamp_us,
            thread_id: at.thread_id,
            task_kind: String::from_str(task_kind),
            tx_index: tx_index,
            incarnation: incarnation,
            result: String::from_str(result),
            processing_time_us: processing_time_us,
            is_reexecution: is_reexecution,
            first_reexecution_deferred: first_reexecution_deferred,
            executed_once_watermark: executed_once_watermark,
            defer_reason: defer_reason,
        };
        self.log_event(event, LogLevel::Debug);
    }


    /// A copy of the statistics of every transaction.
    pub fn export_transaction_stats(&self) -> (r: HashMap<u32, TransactionStats>)
        ensures
            r@.map_values(|s: TransactionStats| s@) == self@.stats.transaction_stats,
    {
        self.execution_stats.transaction_stats.clone()
    }

    /// Logs the start of a block with the data set and sampling settings of the
    /// execution context, and marks the start of its execution.
    pub fn log_block_start_with_context(
        &mut self,
        block_id: &str,
        tx_count: u32,
        concurrency_level: u32,
        at: &Moment,
    )
        requires
            old(self).wf(),
        ensures
            final(self).wf(),
            final(self)@ == old(self)@.with_stats(
                BlockExecutionStatsView { start_time: Some(at.monotonic_ns), ..old(self)@.stats },
            ).log(
                LogEventView::BlockStart {
                    timestamp: at.timestamp_us,
                    thread_id: 0,
                    block_id: block_id@,
                    dataset: old(self)@.context.dataset,
                    tx_count,
                    concurrency_level,
                    sample_period_ms: old(self)@.context.sample_period_ms,
                    read_sample_rate_bits: old(self)@.context.read_sample_rate_bits,
                    source_csv: old(self)@.context.source_csv,
                },
                LogLevel::Info,
            ),
    {
        self.mark_block_execution_start(at);
        let context = self.execution_context.copy();
        let event = LogEvent::BlockStart {
            timestamp: at.timestamp_us,
            thread_id: 0,
            block_id: String::from_str(block_id),
            dataset: context.dataset,
            tx_count,
            concurrency_level,
            sample_period_ms: context.sample_period_ms,
            read_sample_rate_bits: context.read_sample_rate_bits,
            source_csv: context.source_csv,
        };
        self.log_event(event, LogLevel::Info);
    }

    /// Logs the end of a block with the threads that took part, in
    /// increasing order.
    pub fn log_block_finish(
        &mut self,
        block_id: &str,
        committed_count: u32,
        total_duration_us: u64,
        at: &Moment,
    )
        requires
            old(self).wf(),
        ensures
            final(self).wf(),
            final(self)@ == old(self)@.log(
                LogEventView::BlockFinish {
                    timestamp: at.timestamp_us,
                    thread_list: threads_in_order(old(self)@.stats.participating_threads),
                    block_id: block_id@,
                    committed_count,
                    total_duration_us,
                },
                LogLevel::Info,
            ),
    {
        let thread_list = self.get_participating_threads();
        let event = LogEvent::BlockFinish {
            timestamp: at.timestamp_us,
            thread_list,
            block_id: String::from_str(block_id),
            committed_count,
            total_duration_us,
        };
        self.log_event(event, LogLevel::Info);
    }

    /// Logs the end of a block; a total duration of zero is replaced by the
    /// time since the marked start of the block execution (zero where none is
    /// marked).
    pub fn log_block_finish_legacy(
        &mut self,
        block_id: &str,
        committed_count: u32,
        total_duration_us: u64,
        at: &Moment,
    )
        requires
            old(self).wf(),
        ensures
            final(self).wf(),
            final(self)@ == old(self)@.log(
                LogEventView::BlockFinish {
                    timestamp: at.timestamp_us,
                    thread_list: threads_in_order(old(self)@.stats.participating_threads),
                    block_id: block_id@,
                    committed_count,
                    total_duration_us: if total_duration_us == 0 {
                        match old(self)@.stats.start_time {
                            Some(s) => micros_between(s, at.monotonic_ns),
                            None => 0,
                        }
                    } else {
                        total_duration_us
                    },
                },
                LogLevel::Info,
            ),
    {
        let actual_duration_us = if total_duration_us == 0 {
            match self.execution_stats.start_time {
                Some(s) => elapsed_micros(s, at.monotonic_ns),
                None => 0,
            }
        } else {
            total_duration_us
        };
        self.log_block_finish(block_id, committed_count, actual_duration_us, at);
    }

    /// Logs a read of the multi-version hash map, where the read is one of
    /// those sampled (`sampled`), and records the calling thread.
    pub fn log_mv_read(
        &mut self,
        txn_id: TxnIndex,
        incarnation: Incarnation,
        state_key: &str,
        read_from: &str,
        writer_tx: Option<TxnIndex>,
        writer_incarnation: Option<Incarnation>,
        is_estimate: bool,
        value_size: Option<usize>,
        sampled: bool,
        at: &Moment,
    )
        requires
            old(self).wf(),
        ensures
            final(self).wf(),
            final(self)@ == (if sampled {
                old(self)@.record_thread(at.thread_id).log(
                    LogEventView::MVRead {
                        timestamp: at.timestamp_us,
                        thread_id: at.thread_id,
                        transaction_id: txn_id,
                        incarnation,
                        state_key: state_key@,
                        read_from: read_from@,
                        writer_tx,
                        writer_incarnation,
                        is_estimate,
                        value_size,
                    },
                    LogLevel::Debug,
                )
            } else {
                old(self)@
            }),
    {
        if !sampled {
            return ;
        }
        self.record_participating_thread(at.thread_id);
        let event = LogEvent::MVRead {
            timestamp: at.timestamp_us,
            thread_id: at.thread_id,
            transaction_id: txn_id,
            incarnation,
            state_key: String::from_str(state_key),
            read_from: String::from_str(read_from),
            writer_tx,
            writer_incarnation,
            is_estimate,
            value_size,
        };
        self.log_event(event, LogLevel::Debug);
    }

    /// Logs the start of a transaction: as its initial execution, and as a
    /// transaction start in the execution log file.
    pub fn log_transaction_start(&mut self, txn_id: TxnIndex, incarnation: Incarnation, at: &Moment)
        requires
            old(self).wf(),
        ensures
            final(self).wf(),
            final(self)@ == old(self)@.record_thread(at.thread_id).log(
                LogEventView::ExecutionStart {
                    timestamp: at.timestamp_us,
                    thread_id: at.thread_id,
                    transaction_id: txn_id,
                    incarnation,
                    execution_phase: "Initial"@,
                },
                LogLevel::Debug,
            ).log(
                LogEventView::TransactionStart {
                    transaction_id: txn_id,
                    incarnation,
                    thread_id: at.thread_id,
                    timestamp: at.timestamp_us,
                },
                LogLevel::Info,
            ),
    {
        self.log_execution_start(txn_id, incarnation, "Initial", at);
        let event = LogEvent::TransactionStart {
            transaction_id: txn_id,
            incarnation,
            thread_id: at.thread_id,
            timestamp: at.timestamp_us,
        };
        self.log_event(event, LogLevel::Info);
    }

    /// Logs a state transition of a transaction as a scheduler state transition.
    pub fn log_execution_state_transition(
        &mut self,
        txn_id: TxnIndex,
        incarnation: Incarnation,
        old_state: &str,
        new_state: &str,
        transition_reason: &str,
        _execution_phase: &str,
        at: &Moment,
    )
        requires
            old(self).wf(),
        ensures
            final(self).wf(),
            final(self)@ == old(self)@.record_thread(at.thread_id).log(
                LogEventView::SchedulerStateTransition {
                    timestamp: at.timestamp_us,
                    thread_id: at.thread_id,
                    transaction_id: Some(txn_id),
                    incarnation: Some(incarnation),
                    old_state: old_state@,
                    new_state: new_state@,
                    trigger_reason: transition_reason@,
                },
                LogLevel::Debug,
            ),
    {
        self.log_scheduler_state_transition(
            old_state,
            new_state,
            Some(txn_id),
            Some(incarnation),
            transition_reason,
            at,
        );
    }

    /// Logs the commit of a transaction as a finished execution with result
    /// "Committed" and nothing measured.
    pub fn log_transaction_commit(&mut self, txn_id: TxnIndex, incarnation: Incarnation, at: &Moment)
        requires
            old(self).wf(),
        ensures
            final(self).wf(),
            final(self)@ == old(self)@.record_thread(at.thread_id).log(
                LogEventView::ExecutionFinish {
                    timestamp: at.timestamp_us,
                    thread_id: at.thread_id,
                    transaction_id: txn_id,
                    incarnation,
                    result: "Committed"@,
                    exec_duration_us: 0,
                    gas_used: 0,
                    read_set_size: 0,
                    write_set_size: 0,
                    resource_reads: 0,
                    resource_writes: 0,
                    module_reads: 0,
                    module_writes: 0,
                    delayed_field_reads: 0,
                    delayed_field_writes: 0,
                },
                LogLevel::Info,
            ),
    {
        self.log_execution_finish(txn_id, incarnation, "Committed", 0, 0, 0, 0, 0, 0, 0, 0, 0, 0, at);
    }

    /// Logs the end of a transaction: as a finished execution, and as a
    /// transaction finish in the execution log file; the duration is given in
    /// whole microseconds.
    pub fn log_transaction_finish(
        &mut self,
        txn_id: TxnIndex,
        incarnation: Incarnation,
        execution_result: &str,
        duration_us: u64,
        gas_used: u64,
        read_set_size: usize,
        write_set_size: usize,
        at: &Moment,
    )
        requires
            old(self).wf(),
        ensures
            final(self).wf(),
            final(self)@ == old(self)@.record_thread(at.thread_id).log(
                LogEventView::ExecutionFinish {
                    timestamp: at.timestamp_us,
                    thread_id: at.thread_id,
                    transaction_id: txn_id,
                    incarnation,
                    result: execution_result@,
                    exec_duration_us: duration_us,
                    gas_used,
                    read_set_size,
                    write_set_size,
                    resource_reads: 0,
                    resource_writes: 0,
                    module_reads: 0,
                    module_writes: 0,
                    delayed_field_reads: 0,
                    delayed_field_writes: 0,
                },
                LogLevel::Info,
            ).log(
                LogEventView::TransactionFinish {
                    transaction_id: txn_id,
                    incarnation,
                    thread_id: at.thread_id,
                    timestamp: at.timestamp_us,
                    execution_result: execution_result@,
                    duration_us,
                    gas_used,
                    read_set_size,
                    write_set_size,
                },
                LogLevel::Info,
            ),
    {
        self.log_execution_finish(
            txn_id,
            incarnation,
            execution_result,
            duration_us,
            gas_used,
            read_set_size,
            write_set_size,
            0,
            0,
            0,
            0,
            0,
            0,
            at,
        );
        let event = LogEvent::TransactionFinish {
            transaction_id: txn_id,
            incarnation,
            thread_id: at.thread_id,
            timestamp: at.timestamp_us,
            execution_result: String::from_str(execution_result),
            duration_us,
            gas_used,
            read_set_size,
            write_set_size,
        };
        self.log_event(event, LogLevel::Info);
    }

    /// Logs the abort of a transaction as the start of an abort.
    pub fn log_transaction_abort(
        &mut self,
        txn_id: TxnIndex,
        incarnation: Incarnation,
        abort_reason: &str,
        retry_count: u32,
        dependencies: Vec<TxnIndex>,
        at: &Moment,
    )
        requires
            old(self).wf(),
        ensures
            final(self).wf(),
            final(self)@ == old(self)@.log(
                LogEventView::AbortInitiated {
                    timestamp: at.timestamp_us,
                    thread_id: at.thread_id,
                    transaction_id: txn_id,
                    incarnation,
                    abort_reason: abort_reason@,
                    retry_count,
                    dependencies: dependencies@,
                },
                LogLevel::Info,
            ),
    {
        self.log_abort_initiated(txn_id, incarnation, abort_reason, retry_count, dependencies, at);
    }

    /// Logs the dispatch of a task as a scheduler transition from "IDLE" to
    /// "DISPATCHING".
    pub fn log_task_dispatch(
        &mut self,
        txn_id: TxnIndex,
        incarnation: Incarnation,
        _task_type: &str,
        description: &str,
        at: &Moment,
    )
        requires
            old(self).wf(),
        ensures
            final(self).wf(),
            final(self)@ == old(self)@.record_thread(at.thread_id).log(
                LogEventView::SchedulerStateTransition {
                    timestamp: at.timestamp_us,
                    thread_id: at.thread_id,
                    transaction_id: Some(txn_id),
                    incarnation: Some(incarnation),
                    old_state: "IDLE"@,
                    new_state: "DISPATCHING"@,
                    trigger_reason: description@,
                },
                LogLevel::Debug,
            ),
    {
        self.log_scheduler_state_transition(
            "IDLE",
            "DISPATCHING",
            Some(txn_id),
            Some(incarnation),
            description,
            at,
        );
    }

    /// Logs the read and write statistics of an execution, when logging is
    /// enabled; the key lists are left empty.
    pub fn log_readwrite_detailed_stats(
        &mut self,
        tx_index: TxnIndex,
        incarnation: Incarnation,
        resource_reads: usize,
        resource_writes: usize,
        module_reads: usize,
        module_writes: usize,
        delayed_field_reads: usize,
        delayed_field_writes: usize,
        aggregator_v1_reads: usize,
        aggregator_v1_writes: usize,
        _read_summary_size: usize,
        _write_summary_size: usize,
        at: &Moment,
    )
        requires
            old(self).wf(),
        ensures
            final(self).wf(),
            final(self)@ == (if old(self)@.config.enabled {
                old(self)@.log(
                    LogEventView::ReadWriteSetChange {
                        timestamp: at.timestamp_us,
                        thread_id: at.thread_id,
                        transaction_id: tx_index,
                        incarnation,
                        read_keys: Seq::empty(),
                        write_keys: Seq::empty(),
                        resource_reads,
                        resource_writes,
                        module_reads,
                        module_writes,
                        delayed_field_reads,
                        delayed_field_writes,
                        aggregator_v1_reads,
                        aggregator_v1_writes,
                        resource_group_reads: 0,
                        resource_group_writes: 0,
                        read_set_delta: 0,
                        write_set_delta: 0,
                        change_trigger: "execution"@,
                    },
                    LogLevel::Debug,
                )
            } else {
                old(self)@
            }),
    {
        if !self.config.enabled {
            return ;
        }
        let read_keys: Vec<String> = Vec::new();
        let write_keys: Vec<String> = Vec::new();
        assert(strings_view(read_keys@) =~= Seq::empty());
        assert(strings_view(write_keys@) =~= Seq::empty());
        let event = LogEvent::ReadWriteSetChange {
            timestamp: at.timestamp_us,
            thread_id: at.thread_id,
            transaction_id: tx_index,
            incarnation,
            read_keys,
            write_keys,
            resource_reads,
            resource_writes,
            module_reads,
            module_writes,
            delayed_field_reads,
            delayed_field_writes,
            aggregator_v1_reads,
            aggregator_v1_writes,
            resource_group_reads: 0,
            resource_group_writes: 0,
            read_set_delta: 0,
            write_set_delta: 0,
            change_trigger: String::from_str("execution"),
        };
        self.log_event(event, LogLevel::Debug);
    }

    /// Logs that a transaction stalls on the first of `stalled_by`, as a
    /// dependency and as a suspended task; nothing where `stalled_by` is empty.
    pub fn log_dependency_stall(
        &mut self,
        txn_id: TxnIndex,
        txn_incarnation: Incarnation,
        stalled_by: Vec<TxnIndex>,
        depends_on_incarnation: Incarnation,
        at: &Moment,
    )
        requires
            old(self).wf(),
        ensures
            final(self).wf(),
            final(self)@ == (if stalled_by@.len() > 0 {
                old(self)@.log(
                    LogEventView::DependencyBlock {
                        timestamp: at.timestamp_us,
                        thread_id: at.thread_id,
                        transaction_id: txn_id,
                        incarnation: txn_incarnation,
                        depends_on_tx: stalled_by@[0],
                        depends_on_incarnation: Some(depends_on_incarnation),
                    },
                    LogLevel::Debug,
                ).log(
                    LogEventView::TaskSuspend {
                        timestamp: at.timestamp_us,
                        thread_id: at.thread_id,
                        transaction_id: txn_id,
                        incarnation: txn_incarnation,
                        suspend_reason: "StallPropagation"@,
                        depends_on_tx: Some(stalled_by@[0]),
                    },
                    LogLevel::Debug,
                )
            } else {
                old(self)@
            }),
    {
        if stalled_by.len() > 0 {
            let owner_tx = stalled_by[0];
            let event = LogEvent::DependencyBlock {
                timestamp: at.timestamp_us,
                thread_id: at.thread_id,
                transaction_id: txn_id,
                incarnation: txn_incarnation,
                depends_on_tx: owner_tx,
                depends_on_incarnation: Some(depends_on_incarnation),
            };
            self.log_event(event, LogLevel::Debug);
            self.log_task_suspend(txn_id, txn_incarnation, "StallPropagation", Some(owner_tx), at);
        }
    }

    /// Logs that a transaction no longer depends on `unstalled_by`, as a
    /// resolved dependency and as a resumed task (of incarnation one).
    pub fn log_dependency_unstall(&mut self, txn_id: TxnIndex, unstalled_by: TxnIndex, at: &Moment)
        requires
            old(self).wf(),
        ensures
            final(self).wf(),
            final(self)@ == old(self)@.log(
                LogEventView::DependencyResolve {
                    timestamp: at.timestamp_us,
                    thread_id: at.thread_id,
                    depender_tx: txn_id,
                    on_tx: unstalled_by,
                    resolve_cause: "OnTxExecuted"@,
                },
                LogLevel::Debug,
            ).log(
                LogEventView::TaskResume {
                    timestamp: at.timestamp_us,
                    thread_id: at.thread_id,
                    transaction_id: txn_id,
                    incarnation: 1,
                    resume_reason: "StallRemoved"@,
                    resolved_by_tx: Some(unstalled_by),
                },
                LogLevel::Debug,
            ),
    {
        let event = LogEvent::DependencyResolve {
            timestamp: at.timestamp_us,
            thread_id: at.thread_id,
            depender_tx: txn_id,
            on_tx: unstalled_by,
            resolve_cause: String::from_str("OnTxExecuted"),
        };
        self.log_event(event, LogLevel::Debug);
        self.log_task_resume(txn_id, 1, "StallRemoved", Some(unstalled_by), at);
    }

}

/// Bit pattern of the floating-point number one.
pub const ONE_BITS: u64 = 0x3ff0_0000_0000_0000;

/// The numbers of a set in increasing order.
pub open spec fn threads_in_order(s: Set<u64>) -> Seq<u64> {
    choose|t: Seq<u64>| strictly_increasing(t) && t.to_set() == s
}

/// Two strictly increasing sequences with the same elements are equal.
pub proof fn lemma_increasing_sequence_unique(a: Seq<u64>, b: Seq<u64>)
    requires
        strictly_increasing(a),
        strictly_increasing(b),
        a.to_set() == b.to_set(),
    ensures
        a == b,
    decreases a.len(),
{
    if a.len() == 0 {
        if b.len() > 0 {
            assert(b.to_set().contains(b[0]));
            assert(a.to_set().contains(b[0]));
        }
        assert(a =~= b);
    } else {
        assert(a.to_set().contains(a[0]));
        assert(b.to_set().contains(a[0]));
        assert(b.len() > 0);
        assert(b.to_set().contains(b[0]));
        assert(a.to_set().contains(b[0]));
        let j = choose|j: int| 0 <= j < a.len() && a[j] == b[0];
        let k = choose|k: int| 0 <= k < b.len() && b[k] == a[0];
        if j > 0 {
            assert(a[0] < a[j]);
        }
        if k > 0 {
            assert(b[0] < b[k]);
        }
        assert(a[0] == b[0]);
        let a1 = a.drop_first();
        let b1 = b.drop_first();
        assert(a1.to_set() =~= b1.to_set()) by {
            assert forall|x: u64| a1.to_set().contains(x) implies b1.to_set().contains(x) by {
                let p = choose|p: int| 0 <= p < a1.len() && a1[p] == x;
                assert(a[p + 1] == x);
                assert(a[0] < x);
                assert(b.to_set().contains(x));
                let q = choose|q: int| 0 <= q < b.len() && b[q] == x;
                assert(q != 0);
                assert(b1[q - 1] == x);
            }
            assert forall|x: u64| b1.to_set().contains(x) implies a1.to_set().contains(x) by {
                let p = choose|p: int| 0 <= p < b1.len() && b1[p] == x;
                assert(b[p + 1] == x);
                assert(b[0] < x);
                assert(a.to_set().contains(x));
                let q = choose|q: int| 0 <= q < a.len() && a[q] == x;
                assert(q != 0);
                assert(a1[q - 1] == x);
            }
        }
        lemma_increasing_sequence_unique(a1, b1);
        assert(a =~= b) by {
            assert forall|i: int| 0 <= i < a.len() implies a[i] == b[i] by {
                if i > 0 {
                    assert(a[i] == a1[i - 1]);
                    assert(b[i] == b1[i - 1]);
                }
            }
        }
    }
}



/// Sets up the global logger in `slot` from `config` and `context`, once.
/// `files_opened` is the outcome of creating the log directory and files
/// that the configuration asks for; a failure there is reported first, and a
/// slot that already holds a logger is left as it is.
pub fn init_global_logger(
    slot: &mut Option<BlockSTMLogger>,
    config: LoggingConfig,
    context: ExecutionContext,
    files_opened: Result<(), std::io::Error>,
) -> (r: Result<(), InitError>)
    ensures
        files_opened is Err ==> {
            &&& *final(slot) == *old(slot)
            &&& r matches Err(InitError::Io(e)) && e == files_opened->Err_0
        },
        files_opened is Ok && (*old(slot)) is Some ==> {
            &&& *final(slot) == *old(slot)
            &&& r matches Err(InitError::AlreadyExists(m)) && m@ == "全局日志记录器已初始化"@
        },
        files_opened is Ok && (*old(slot)) is None ==> {
            &&& r is Ok
            &&& *final(slot) matches Some(l) && l.wf() && l@ == (LoggerView {
                config,
                open_files: if config.enabled {
                    opened_file_types()
                } else {
                    Seq::empty()
                },
                context: context@,
                stats: empty_execution_stats(),
                sep: reset_stall_stats(None),
                pending: Seq::empty(),
            })
        },
{
    match files_opened {
        Err(e) => Err(InitError::Io(e)),
        Ok(()) => {
            if slot.is_some() {
                Err(InitError::AlreadyExists(String::from_str("全局日志记录器已初始化")))
            } else {
                *slot = Some(BlockSTMLogger::new(config, context));
                Ok(())
            }
        },
    }
}

/// The total of stall events of the separated statistics is always the
/// transaction-level and the system-level stalls together (modulo 2^32).
pub proof fn lemma_total_stalls_are_the_sum(l: &BlockSTMLogger)
    requires
        l.wf(),
    ensures
        l@.sep.total_stall_events == add_u32(l@.sep.transaction_stalls, l@.sep.system_stalls),
{
}

/// A logger keeps at most a thousand concurrency samples.
pub proof fn lemma_samples_bounded(l: &BlockSTMLogger)
    requires
        l.wf(),
    ensures
        l@.stats.concurrent_execution_samples.len() <= 1000,
{
}

/// A disabled logger writes nothing: neither events, whatever their level,
/// nor lines of the stall event file.
pub proof fn lemma_disabled_logger_writes_nothing(
    l: LoggerView,
    e: LogEventView,
    level: LogLevel,
    line: LineView,
)
    requires
        l.wf(),
        !l.config.enabled,
    ensures
        l.log(e, level) == l,
        l.write_stall_line(line) == l,
{
    assert(l.pending + Seq::empty() =~= l.pending);
    assert(!l.open_files.contains(LogFileType::StallEvents));
}

/// An event below the configured level is not written.
pub proof fn lemma_level_below_threshold_writes_nothing(l: LoggerView, e: LogEventView, level: LogLevel)
    requires
        level_rank(level) < level_rank(l.config.log_level),
    ensures
        l.log(e, level) == l,
{
    assert(l.pending + Seq::empty() =~= l.pending);
}

/// An enabled logger as created writes each event of an enabled level, once,
/// to the file it belongs in.
pub proof fn lemma_enabled_logger_writes_to_its_file(l: LoggerView, e: LogEventView, level: LogLevel)
    requires
        l.config.enabled,
        l.open_files == opened_file_types(),
        level_rank(level) >= level_rank(l.config.log_level),
    ensures
        l.log(e, level).pending == l.pending.push((spec_route(e), LineView::Event(e))),
{
    let f = spec_route(e);
    let o = opened_file_types();
    assert(o.contains(f)) by {
        match f {
            LogFileType::BlockSummary => assert(o[0] == f),
            LogFileType::SchedulerStates => assert(o[1] == f),
            LogFileType::MVHashMapOps => assert(o[2] == f),
            LogFileType::Dependencies => assert(o[3] == f),
            LogFileType::ExecutionFlow => assert(o[4] == f),
            LogFileType::AbortRecovery => assert(o[5] == f),
            LogFileType::DetailedOperations => assert(o[6] == f),
            LogFileType::SystemOperations => assert(o[7] == f),
            LogFileType::StallEvents => assert(o[8] == f),
            LogFileType::TransactionStalls => assert(o[9] == f),
            LogFileType::SystemStalls => assert(o[10] == f),
            LogFileType::Execution => assert(o[11] == f),
            LogFileType::Performance => assert(o[12] == f),
            LogFileType::ReadWrite => assert(o[13] == f),
        }
    }
    assert(l.pending + seq![(f, LineView::Event(e))] =~= l.pending.push((f, LineView::Event(e))));
}

/// The largest number of concurrent executions never decreases, and covers
/// every number reported to it.
pub proof fn lemma_max_concurrency_covers(l: LoggerView, c: u32)
    ensures
        l.raise_max_concurrency(c).stats.max_concurrent_executions >= c,
        l.raise_max_concurrency(c).stats.max_concurrent_executions
            >= l.stats.max_concurrent_executions,
        l.raise_max_concurrency(c).stats.max_concurrent_executions == c
            || l.raise_max_concurrency(c).stats.max_concurrent_executions
            == l.stats.max_concurrent_executions,
{
}

/// A first stall of an incarnation notes its start, at the moment of the call.
pub proof fn lemma_first_stall_notes_start(
    l: LoggerView,
    txn: TxnIndex,
    inc: Incarnation,
    by_tx: TxnIndex,
    at: Moment,
)
    requires
        l.wf(),
    ensures
        ({
            let s = l.transaction_stall_add(txn, inc, by_tx, true, at).stats.stall_start_times;
            has_stall_start(s, txn, inc) && s[stall_start_index(s, txn, inc)].start_ns
                == at.monotonic_ns
        }),
{
    let l2 = l.count_transaction_stall().count_transaction_stall_of(txn);
    let before = l.sep.transaction_stalls;
    let ev = LogEventView::TransactionStallAdd {
        timestamp: at.timestamp_us,
        thread_id: at.thread_id,
        txn_id: txn,
        incarnation: inc,
        by_tx,
        transaction_stall_count_before: before,
        transaction_stall_count_after: (before + 1) as u32,
        first_stall: true,
        stall_transition: "UNSTALLED_TO_STALLED"@,
    };
    let l3 = l2.log(ev, LogLevel::Debug);
    let s = l3.stats.stall_start_times;
    assert(s == l.stats.stall_start_times);
    let t = l3.set_stall_start(txn, inc, at.monotonic_ns).stats.stall_start_times;
    let entry = StallStart { txn_id: txn, incarnation: inc, start_ns: at.monotonic_ns };
    if has_stall_start(s, txn, inc) {
        let i = stall_start_index(s, txn, inc);
        assert(t[i] == entry);
        assert(t[i].txn_id == txn && t[i].incarnation == inc);
        assert(has_stall_start(t, txn, inc));
        let k = stall_start_index(t, txn, inc);
        if k != i {
            assert(t[k] == s[k]);
            if k < i {
                assert(!(s[k].txn_id == s[i].txn_id && s[k].incarnation == s[i].incarnation));
            } else {
                assert(!(s[i].txn_id == s[k].txn_id && s[i].incarnation == s[k].incarnation));
            }
        }
    } else {
        let i = s.len() as int;
        assert(t[i] == entry);
        assert(t[i].txn_id == txn && t[i].incarnation == inc);
        assert(has_stall_start(t, txn, inc));
        let k = stall_start_index(t, txn, inc);
        if k != i {
            assert(t[k] == s[k]);
            assert(has_stall_start(s, txn, inc));
        }
    }
}

/// An unstall that ends the stall of an incarnation leaves no stall start of
/// that incarnation behind.
pub proof fn lemma_unstall_consumes_start(
    l: LoggerView,
    txn: TxnIndex,
    inc: Incarnation,
    by_tx: TxnIndex,
    at: Moment,
)
    requires
        l.wf(),
    ensures
        !has_stall_start(
            l.transaction_stall_remove(txn, inc, by_tx, true, at).stats.stall_start_times,
            txn,
            inc,
        ),
{
    let s = l.stats.stall_start_times;
    if has_stall_start(s, txn, inc) {
        let i = stall_start_index(s, txn, inc);
        let t = s.remove(i);
        if has_stall_start(t, txn, inc) {
            let k = choose|k: int| 0 <= k < t.len() && #[trigger] t[k].txn_id == txn && t[k].incarnation == inc;
            if k < i {
                assert(t[k] == s[k]);
                assert(!(s[k].txn_id == s[i].txn_id && s[k].incarnation == s[i].incarnation));
            } else {
                assert(t[k] == s[k + 1]);
                assert(!(s[i].txn_id == s[k + 1].txn_id && s[i].incarnation == s[k + 1].incarnation));
            }
        }
    }
}

/// A system-level stall that was started reads back, when it ends, as the
/// time since its start.
pub proof fn lemma_system_stall_length_after_start(l: LoggerView, worker: u32, t0: u64, t1: u64)
    ensures
        l.start_system_stall(worker, t0).system_stall_length(worker, t1) == Some(micros_between(t0, t1)),
        l.start_system_stall(worker, t0).end_system_stall(worker, t1).sep.system_stall_start_times
            == l.sep.system_stall_start_times.remove(worker),
{
    assert(l.sep.system_stall_start_times.insert(worker, t0).remove(worker) =~= l.sep.system_stall_start_times.remove(worker));
}


/// Distinct kinds of file have distinct file names.
pub proof fn lemma_filenames_distinct(f: LogFileType, g: LogFileType)
    requires
        f != g,
    ensures
        spec_filename(f) != spec_filename(g),
{
    reveal_strlit("block_summary.ndjson");
    reveal_strlit("scheduler_states.ndjson");
    reveal_strlit("mvhashmap_ops.ndjson");
    reveal_strlit("dependencies.ndjson");
    reveal_strlit("execution_flow.ndjson");
    reveal_strlit("abort_recovery.ndjson");
    reveal_strlit("detailed_operations.ndjson");
    reveal_strlit("system_operations.ndjson");
    reveal_strlit("stall_events.ndjson");
    reveal_strlit("transaction_stalls.ndjson");
    reveal_strlit("system_stalls.ndjson");
    reveal_strlit("block_stm_execution.log");
    reveal_strlit("block_stm_performance.log");
    reveal_strlit("block_stm_readwrite.log");
    let a = spec_filename(f);
    let b = spec_filename(g);
    if a.len() == b.len() {
        if a[0] != b[0] {
        } else if a[1] != b[1] {
        } else if a[7] != b[7] {
        } else {
            assert(a[10] != b[10]);
        }
    }
}

/// Setting the stall start of an incarnation notes it, once, with the given
/// start.
proof fn lemma_set_stall_start_notes(l: LoggerView, txn: TxnIndex, inc: Incarnation, now: u64)
    requires
        stall_keys_unique(l.stats.stall_start_times),
    ensures
        ({
            let t = l.set_stall_start(txn, inc, now).stats.stall_start_times;
            &&& stall_keys_unique(t)
            &&& has_stall_start(t, txn, inc)
            &&& t[stall_start_index(t, txn, inc)].start_ns == now
        }),
{
    let s = l.stats.stall_start_times;
    let t = l.set_stall_start(txn, inc, now).stats.stall_start_times;
    let entry = StallStart { txn_id: txn, incarnation: inc, start_ns: now };
    let i = if has_stall_start(s, txn, inc) {
        stall_start_index(s, txn, inc)
    } else {
        s.len() as int
    };
    assert(0 <= i < t.len());
    assert(t[i] == entry);
    assert(t[i].txn_id == txn && t[i].incarnation == inc);
    assert(has_stall_start(t, txn, inc));
    assert forall|a: int, b: int| 0 <= a < b < t.len() implies !(#[trigger] t[a].txn_id
        == #[trigger] t[b].txn_id && t[a].incarnation == t[b].incarnation) by {
        if a != i && b != i {
            assert(t[a] == s[a] && t[b] == s[b]);
        } else if a == i {
            assert(t[b] == s[b]);
            if !has_stall_start(s, txn, inc) {
                assert(b >= s.len());
            } else {
                assert(s[i].txn_id == txn && s[i].incarnation == inc);
            }
        } else {
            assert(t[a] == s[a]);
            if has_stall_start(s, txn, inc) {
                assert(s[i].txn_id == txn && s[i].incarnation == inc);
            } else {
                assert(s[a].txn_id == txn && s[a].incarnation == inc ==> has_stall_start(s, txn, inc));
            }
        }
    }
    let k = stall_start_index(t, txn, inc);
    if k != i {
        assert(t[k].txn_id == t[i].txn_id && t[k].incarnation == t[i].incarnation);
    }
}

/// An unstall that ends a stall whose start is noted counts the time since
/// that start: as stall time, in nanoseconds, and as transaction-level stall
/// time, in microseconds.
pub proof fn lemma_unstall_counts_time(
    l: LoggerView,
    txn: TxnIndex,
    inc: Incarnation,
    by_tx: TxnIndex,
    stall_count_after: u32,
    at: Moment,
)
    requires
        stall_keys_unique(l.stats.stall_start_times),
        has_stall_start(l.stats.stall_start_times, txn, inc),
    ensures
        ({
            let s = l.stats.stall_start_times;
            let t0 = s[stall_start_index(s, txn, inc)].start_ns;
            let r = l.stall_remove(txn, inc, by_tx, stall_count_after, true, at);
            &&& r.stats.total_stall_time_ns == add_u64(
                l.stats.total_stall_time_ns,
                nanos_between(t0, at.monotonic_ns),
            )
            &&& r.sep.transaction_stall_duration_total_us == add_u64(
                l.sep.transaction_stall_duration_total_us,
                micros_between(t0, at.monotonic_ns),
            )
            &&& !has_stall_start(r.stats.stall_start_times, txn, inc)
        }),
{
    let s = l.stats.stall_start_times;
    let i = stall_start_index(s, txn, inc);
    let t = s.remove(i);
    if has_stall_start(t, txn, inc) {
        let k = choose|k: int| 0 <= k < t.len() && #[trigger] t[k].txn_id == txn && t[k].incarnation == inc;
        if k < i {
            assert(t[k] == s[k]);
        } else {
            assert(t[k] == s[k + 1]);
        }
    }
}

/// A first stall followed by the unstall that ends it counts the time
/// between the two as stall time and as transaction-level stall time.
pub proof fn lemma_stall_then_unstall_counts_time(
    l: LoggerView,
    txn: TxnIndex,
    inc: Incarnation,
    by_tx: TxnIndex,
    count_after_add: u32,
    count_after_remove: u32,
    a0: Moment,
    a1: Moment,
)
    requires
        l.wf(),
    ensures
        ({
            let l1 = l.stall_add(txn, inc, by_tx, count_after_add, true, a0);
            let l2 = l1.stall_remove(txn, inc, by_tx, count_after_remove, true, a1);
            &&& l2.stats.total_stall_time_ns == add_u64(
                l1.stats.total_stall_time_ns,
                nanos_between(a0.monotonic_ns, a1.monotonic_ns),
            )
            &&& l2.sep.transaction_stall_duration_total_us == add_u64(
                l1.sep.transaction_stall_duration_total_us,
                micros_between(a0.monotonic_ns, a1.monotonic_ns),
            )
        }),
{
    let before = l.sep.transaction_stalls;
    let logged = l.count_transaction_stall().count_transaction_stall_of(txn).log(
        LogEventView::TransactionStallAdd {
            timestamp: a0.timestamp_us,
            thread_id: a0.thread_id,
            txn_id: txn,
            incarnation: inc,
            by_tx,
            transaction_stall_count_before: before,
            transaction_stall_count_after: (before + 1) as u32,
            first_stall: true,
            stall_transition: "UNSTALLED_TO_STALLED"@,
        },
        LogLevel::Debug,
    );
    assert(logged.stats.stall_start_times == l.stats.stall_start_times);
    lemma_set_stall_start_notes(logged, txn, inc, a0.monotonic_ns);
    let m = l.transaction_stall_add(txn, inc, by_tx, true, a0);
    let s1 = m.count_stall_event().write_stall_line(
        LineView::StallDetail(
            stall_detail_line("StallAdd"@, txn, inc, by_tx, count_after_add, true, false, a0),
        ),
    );
    assert(s1.stats.stall_start_times == m.stats.stall_start_times);
    lemma_set_stall_start_notes(s1, txn, inc, a0.monotonic_ns);
    let l1 = l.stall_add(txn, inc, by_tx, count_after_add, true, a0);
    assert(l1.stats.stall_start_times == s1.set_stall_start(txn, inc, a0.monotonic_ns).stats.stall_start_times);
    lemma_unstall_counts_time(l1, txn, inc, by_tx, count_after_remove, a1);
}

/// Each event kind is written to the file of its category: block summaries
/// and samples to the block summary file, scheduler and stall bookkeeping to
/// the scheduler file, multi-version reads and writes to the multi-version
/// file, dependency events to the dependency file, execution and validation to
/// the execution-flow file, aborts and their recovery to the abort-recovery
/// file, aggregator, delayed-field, resource-group and read-write events to
/// the detailed-operations file, module cache, event, metric, commit-marker
/// and post-commit events to the system-operations file, the two kinds of
/// separated stalls to their own files, and transaction start and finish to
/// the execution log.
pub proof fn lemma_events_route_by_category(e: LogEventView)
    ensures
        (e is BlockStart || e is BlockFinish || e is SchedulerSample || e is MemoryUsageSnapshot)
            ==> spec_route(e) == LogFileType::BlockSummary,
        (e is SchedulerStateTransition || e is TaskPicked || e is TaskFinished || e is TaskSuspend
            || e is TaskResume || e is LockContention || e is StallAdd || e is StallRemove
            || e is StallPropagateTick || e is WaterlineAdvance || e is TaskPickedV2
            || e is TaskFinishedV2) ==> spec_route(e) == LogFileType::SchedulerStates,
        (e is MVRead || e is MVWrite || e is EstimateMark || e is EstimateClear || e is MVReadV2)
            ==> spec_route(e) == LogFileType::MVHashMapOps,
        (e is DependencyBlock || e is DependencyResolve || e is StallPropagation
            || e is DependencyBlocked || e is DependencyUnblocked) ==> spec_route(e)
            == LogFileType::Dependencies,
        (e is ExecutionStart || e is ExecutionFinish || e is ValidationStart || e is ValidationFinish
            || e is TransactionOutputDetail || e is ExecutionPhaseTransition) ==> spec_route(e)
            == LogFileType::ExecutionFlow,
        (e is AbortInitiated || e is IncarnationIncrement || e is RescheduleHigher
            || e is ValidationConflict || e is AbortStart || e is AbortFinish || e is InvalidationEdge)
            ==> spec_route(e) == LogFileType::AbortRecovery,
        (e is AggregatorOperation || e is DelayedFieldOperation || e is ResourceGroupOperation
            || e is ReadWriteSetChange) ==> spec_route(e) == LogFileType::DetailedOperations,
        (e is ModuleCacheOperation || e is EventEmission || e is PerformanceMetric
            || e is SchedulerMetric || e is CommitMarkerTransition || e is PostCommitStart
            || e is PostCommitFinish) ==> spec_route(e) == LogFileType::SystemOperations,
        (e is TransactionStallAdd || e is TransactionStallRemove) ==> spec_route(e)
            == LogFileType::TransactionStalls,
        (e is SystemStallStart || e is SystemStallEnd) ==> spec_route(e) == LogFileType::SystemStalls,
        (e is TransactionStart || e is TransactionFinish) ==> spec_route(e) == LogFileType::Execution,
{
}

/// Counting a stall of transaction `txn` raises that transaction's count by
/// one (from zero when it had none) and leaves the count of every other
/// transaction as it was.
pub proof fn lemma_transaction_stall_count_rises_by_one(l: LoggerView, txn: u32)
    requires
        l.sep.transaction_stall_count_by_txn.contains_key(txn)
            ==> l.sep.transaction_stall_count_by_txn[txn] < u32::MAX,
    ensures
        l.count_transaction_stall_of(txn).sep.transaction_stall_count_by_txn.contains_key(txn),
        l.count_transaction_stall_of(txn).sep.transaction_stall_count_by_txn[txn] == (if l.sep.transaction_stall_count_by_txn.contains_key(txn) {
            l.sep.transaction_stall_count_by_txn[txn] as int
        } else {
            0
        }) + 1,
        forall|u: u32|
            u != txn ==> (#[trigger] l.count_transaction_stall_of(txn).sep.transaction_stall_count_by_txn.contains_key(u)
                == l.sep.transaction_stall_count_by_txn.contains_key(u)),
        forall|u: u32|
            u != txn && l.sep.transaction_stall_count_by_txn.contains_key(u)
                ==> #[trigger] l.count_transaction_stall_of(txn).sep.transaction_stall_count_by_txn[u]
                == l.sep.transaction_stall_count_by_txn[u],
{
}

/// How many tasks of kind `name` the distribution `s` has counted: the count
/// in its entry for `name`, or zero when it has none.
pub open spec fn task_count(s: Seq<(Seq<char>, u32)>, name: Seq<char>) -> int {
    if exists|i: int| 0 <= i < s.len() && #[trigger] s[i].0 == name {
        s[choose|i: int| 0 <= i < s.len() && #[trigger] s[i].0 == name].1 as int
    } else {
        0
    }
}

/// The count of a kind in a distribution with one entry per kind is the count
/// in the entry at any position that holds that kind.
proof fn lemma_task_count_at(s: Seq<(Seq<char>, u32)>, name: Seq<char>, i: int)
    requires
        task_keys_unique(s),
        0 <= i < s.len(),
        s[i].0 == name,
    ensures
        task_count(s, name) == s[i].1,
{
    let j = choose|j: int| 0 <= j < s.len() && #[trigger] s[j].0 == name;
    if i < j {
        assert(s[i].0 != s[j].0);
    } else if j < i {
        assert(s[j].0 != s[i].0);
    }
}

/// Recording a task of kind `name` raises the count of that kind by one (from
/// zero when none was recorded) and leaves the count of every other kind as
/// it was, keeping one entry per kind.
pub proof fn lemma_task_count_rises_by_one(s: Seq<(Seq<char>, u32)>, name: Seq<char>, other: Seq<char>)
    requires
        task_keys_unique(s),
        task_count(s, name) < u32::MAX,
    ensures
        task_keys_unique(count_task(s, name)),
        task_count(count_task(s, name), name) == task_count(s, name) + 1,
        other != name ==> task_count(count_task(s, name), other) == task_count(s, other),
{
    let t = count_task(s, name);
    match task_index(s, name) {
        Some(i) => {
            lemma_task_count_at(s, name, i);
            assert(t.len() == s.len());
            assert forall|a: int, b: int| 0 <= a < b < t.len() implies #[trigger] t[a].0 != #[trigger] t[b].0 by {
                assert(s[a].0 != s[b].0);
            }
            assert(t[i].0 == name);
            lemma_task_count_at(t, name, i);
            if other != name {
                if exists|k: int| 0 <= k < s.len() && #[trigger] s[k].0 == other {
                    let k = choose|k: int| 0 <= k < s.len() && #[trigger] s[k].0 == other;
                    lemma_task_count_at(s, other, k);
                    assert(t[k] == s[k]);
                    lemma_task_count_at(t, other, k);
                } else {
                    assert forall|k: int| 0 <= k < t.len() implies #[trigger] t[k].0 != other by {
                        if k != i {
                            assert(t[k] == s[k]);
                        }
                    }
                }
            }
        },
        None => {
            assert forall|k: int| 0 <= k < s.len() implies #[trigger] s[k].0 != name by {
                if s[k].0 == name {
                    assert(exists|k: int| 0 <= k < s.len() && #[trigger] s[k].0 == name);
                }
            }
            assert(task_count(s, name) == 0);
            assert forall|a: int, b: int| 0 <= a < b < t.len() implies #[trigger] t[a].0 != #[trigger] t[b].0 by {
                if b < s.len() {
                    assert(s[a].0 != s[b].0);
                } else {
                    assert(t[b].0 == name);
                    assert(t[a] == s[a]);
                }
            }
            assert(t[s.len() as int].0 == name);
            lemma_task_count_at(t, name, s.len() as int);
            if other != name {
                if exists|k: int| 0 <= k < s.len() && #[trigger] s[k].0 == other {
                    let k = choose|k: int| 0 <= k < s.len() && #[trigger] s[k].0 == other;
                    lemma_task_count_at(s, other, k);
                    assert(t[k] == s[k]);
                    lemma_task_count_at(t, other, k);
                } else {
                    assert forall|k: int| 0 <= k < t.len() implies #[trigger] t[k].0 != other by {
                        if k < s.len() {
                            assert(t[k] == s[k]);
                        }
                    }
                }
            }
        },
    }
}

/// Starting an execution of transaction `txn` at `now` with incarnation `inc`
/// sets its start time to `now`, marks it a first execution exactly when
/// `inc` is one, counts a re-execution exactly when `inc` is above one, and
/// keeps its stall count, abort count, waterline, execution time and task
/// kind as they were (all empty for a transaction not tracked before).
pub proof fn lemma_start_keeps_counts(m: Map<u32, TransactionStatsView>, txn: u32, inc: u32, now: u64)
    requires
        inc > 1 && m.contains_key(txn) ==> m[txn].reexecution_count < u32::MAX,
    ensures
        started_stats(m, txn, inc, now).start_time == Some(now),
        started_stats(m, txn, inc, now).first_execution == (inc == 1),
        m.contains_key(txn) ==> {
            &&& started_stats(m, txn, inc, now).stall_count == m[txn].stall_count
            &&& started_stats(m, txn, inc, now).abort_count == m[txn].abort_count
            &&& started_stats(m, txn, inc, now).waterline_at_exec == m[txn].waterline_at_exec
            &&& started_stats(m, txn, inc, now).execution_time_us == m[txn].execution_time_us
            &&& started_stats(m, txn, inc, now).task_kind == m[txn].task_kind
            &&& started_stats(m, txn, inc, now).reexecution_count == m[txn].reexecution_count
                + if inc > 1 { 1int } else { 0int }
        },
        !m.contains_key(txn) ==> {
            &&& started_stats(m, txn, inc, now).stall_count == 0
            &&& started_stats(m, txn, inc, now).abort_count == 0
            &&& started_stats(m, txn, inc, now).waterline_at_exec == 0
            &&& started_stats(m, txn, inc, now).execution_time_us == 0
            &&& started_stats(m, txn, inc, now).task_kind == Seq::<char>::empty()
            &&& started_stats(m, txn, inc, now).reexecution_count == if inc > 1 { 1int } else { 0int }
        },
{
}

/// Counting a stall of worker `worker` raises that worker's count by one
/// (from zero when it had none) and leaves the count of every other worker as
/// it was.
pub proof fn lemma_system_stall_count_rises_by_one(l: LoggerView, worker: u32)
    requires
        l.sep.system_stall_count_by_worker.contains_key(worker)
            ==> l.sep.system_stall_count_by_worker[worker] < u32::MAX,
    ensures
        l.count_system_stall_of(worker).sep.system_stall_count_by_worker.contains_key(worker),
        l.count_system_stall_of(worker).sep.system_stall_count_by_worker[worker] == (if l.sep.system_stall_count_by_worker.contains_key(worker) {
            l.sep.system_stall_count_by_worker[worker] as int
        } else {
            0
        }) + 1,
        forall|u: u32|
            u != worker ==> (#[trigger] l.count_system_stall_of(worker).sep.system_stall_count_by_worker.contains_key(u)
                == l.sep.system_stall_count_by_worker.contains_key(u)),
        forall|u: u32|
            u != worker && l.sep.system_stall_count_by_worker.contains_key(u)
                ==> #[trigger] l.count_system_stall_of(worker).sep.system_stall_count_by_worker[u]
                == l.sep.system_stall_count_by_worker[u],
{
}

/// Counting a transaction-level stall raises the transaction-level count by
/// one and leaves the system-level count as it was; counting a system-level
/// stall does the converse. Either way the count of all stall events grows by
/// one (modulo 2^32).
pub proof fn lemma_stall_totals_rise_by_one(l: LoggerView)
    requires
        l.sep.transaction_stalls < u32::MAX,
        l.sep.system_stalls < u32::MAX,
    ensures
        l.count_transaction_stall().sep.transaction_stalls == l.sep.transaction_stalls + 1,
        l.count_transaction_stall().sep.system_stalls == l.sep.system_stalls,
        l.count_transaction_stall().sep.total_stall_events == (l.sep.total_stall_events + 1) % 0x1_0000_0000,
        l.count_system_stall().sep.system_stalls == l.sep.system_stalls + 1,
        l.count_system_stall().sep.transaction_stalls == l.sep.transaction_stalls,
        l.count_system_stall().sep.total_stall_events == (l.sep.total_stall_events + 1) % 0x1_0000_0000,
{
}

/// Recording a participating thread adds exactly that thread to the set.
pub proof fn lemma_thread_recorded(l: LoggerView, t: u64, u: u64)
    ensures
        l.record_thread(t).stats.participating_threads.contains(t),
        l.record_thread(t).stats.participating_threads.contains(u)
            == (u == t || l.stats.participating_threads.contains(u)),
{
}

/// Finishing an execution stamps the task kind "Execute", sets the execution
/// time to the microseconds since the recorded start (keeping it when no start
/// was recorded), and keeps every count and the start itself.
pub proof fn lemma_finish_keeps_counts(prev: TransactionStatsView, now: u64)
    ensures
        finished_stats(prev, now).task_kind == "Execute"@,
        prev.start_time is Some ==> finished_stats(prev, now).execution_time_us
            == micros_between(prev.start_time->0, now),
        prev.start_time is None ==> finished_stats(prev, now).execution_time_us
            == prev.execution_time_us,
        finished_stats(prev, now).stall_count == prev.stall_count,
        finished_stats(prev, now).abort_count == prev.abort_count,
        finished_stats(prev, now).reexecution_count == prev.reexecution_count,
        finished_stats(prev, now).waterline_at_exec == prev.waterline_at_exec,
        finished_stats(prev, now).first_execution == prev.first_execution,
        finished_stats(prev, now).start_time == prev.start_time,
{
}

/// A concurrency sample taken while fewer than a thousand are kept is
/// appended after the earlier ones; the samples never exceed a thousand.
pub proof fn lemma_sample_appended(s: Seq<u32>, c: u32)
    requires
        s.len() <= 1000,
    ensures
        add_sample(s, c).len() <= 1000,
        s.len() < 1000 ==> add_sample(s, c) == s.push(c),
        s.len() == 1000 ==> add_sample(s, c) == s.take(500),
{
    if s.len() == 1000 {
        assert(s.push(c).take(500) =~= s.take(500));
    }
}
} // verus!
