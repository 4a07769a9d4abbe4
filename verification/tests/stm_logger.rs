use blockstm_logging::config::{LogLevel, LoggingConfig, Moment};
use blockstm_logging::stm_log::{
    init_global_logger, BlockSTMLogger, ExecutionContext, InitError, LogEvent, LogFileType, LogLine, LogRecord,
};

fn config(enabled: bool, level: LogLevel) -> LoggingConfig {
    LoggingConfig {
        enabled,
        log_dir: "/tmp/blockstm-test".to_string(),
        log_level: level,
        max_file_size: 1024 * 1024,
        buffer_size: 1024,
        async_logging: false,
        include_read_write_details: true,
    }
}

fn context() -> ExecutionContext {
    ExecutionContext::from_settings(None, 0.01f64.to_bits())
}

fn at(ts: u64, thread: u64) -> Moment {
    Moment { timestamp_us: ts, wall_clock_us: ts, monotonic_ns: ts * 1000, thread_id: thread }
}

#[test]
fn file_names_of_the_kinds() {
    assert_eq!(LogFileType::BlockSummary.filename(), "block_summary.ndjson");
    assert_eq!(LogFileType::SchedulerStates.filename(), "scheduler_states.ndjson");
    assert_eq!(LogFileType::MVHashMapOps.filename(), "mvhashmap_ops.ndjson");
    assert_eq!(LogFileType::Dependencies.filename(), "dependencies.ndjson");
    assert_eq!(LogFileType::ExecutionFlow.filename(), "execution_flow.ndjson");
    assert_eq!(LogFileType::AbortRecovery.filename(), "abort_recovery.ndjson");
    assert_eq!(LogFileType::DetailedOperations.filename(), "detailed_operations.ndjson");
    assert_eq!(LogFileType::SystemOperations.filename(), "system_operations.ndjson");
    assert_eq!(LogFileType::StallEvents.filename(), "stall_events.ndjson");
    assert_eq!(LogFileType::TransactionStalls.filename(), "transaction_stalls.ndjson");
    assert_eq!(LogFileType::SystemStalls.filename(), "system_stalls.ndjson");
    assert_eq!(LogFileType::Execution.filename(), "block_stm_execution.log");
    assert_eq!(LogFileType::Performance.filename(), "block_stm_performance.log");
    assert_eq!(LogFileType::ReadWrite.filename(), "block_stm_readwrite.log");
}

#[test]
fn enabled_execution_logger_opens_every_file() {
    let logger = BlockSTMLogger::new(config(true, LogLevel::Debug), context());
    assert!(logger.has_file(LogFileType::BlockSummary));
    assert!(logger.has_file(LogFileType::StallEvents));
    assert!(logger.has_file(LogFileType::TransactionStalls));
    assert!(logger.has_file(LogFileType::SystemStalls));
    assert!(logger.has_file(LogFileType::Execution));
    assert!(logger.has_file(LogFileType::Performance));
    assert!(logger.has_file(LogFileType::ReadWrite));
    let disabled = BlockSTMLogger::new(config(false, LogLevel::Debug), context());
    assert!(!disabled.has_file(LogFileType::BlockSummary));
}

#[test]
fn default_context_reads_the_sampling_setting() {
    let c = ExecutionContext::from_settings(Some("20"), 7);
    assert_eq!(c.dataset, "UNKNOWN");
    assert_eq!(c.source_csv, "unknown");
    assert_eq!(c.sample_period_ms, 20);
    assert_eq!(c.read_sample_rate_bits, 7);
    assert_eq!(ExecutionContext::from_settings(Some("x"), 0).sample_period_ms, 50);
    assert_eq!(ExecutionContext::from_settings(None, 0).sample_period_ms, 50);
}

#[test]
fn start_event_goes_to_the_execution_flow() {
    let mut logger = BlockSTMLogger::new(config(true, LogLevel::Debug), context());
    logger.log_transaction_start(4, 1, &at(10, 3));
    let records = logger.take_pending();
    assert_eq!(records.len(), 2);
    assert_eq!(records[0].file, LogFileType::ExecutionFlow);
    match &records[0].line {
        LogLine::Event(LogEvent::ExecutionStart { transaction_id, incarnation, execution_phase, timestamp, thread_id }) => {
            assert_eq!(*transaction_id, 4);
            assert_eq!(*incarnation, 1);
            assert_eq!(execution_phase, "Initial");
            assert_eq!(*timestamp, 10);
            assert_eq!(*thread_id, 3);
        }
        _ => panic!("Wrong event type"),
    }
    assert_eq!(records[1].file, LogFileType::Execution);
    assert!(matches!(
        records[1].line,
        LogLine::Event(LogEvent::TransactionStart { transaction_id: 4, incarnation: 1, thread_id: 3, timestamp: 10 })
    ));
    assert!(logger.take_pending().is_empty());
}

#[test]
fn debug_events_are_dropped_at_info() {
    let mut logger = BlockSTMLogger::new(config(true, LogLevel::Info), context());
    logger.log_transaction_start(4, 1, &at(10, 3));
    let records = logger.take_pending();
    assert_eq!(records.len(), 1);
    assert_eq!(records[0].file, LogFileType::Execution);
    assert!(matches!(records[0].line, LogLine::Event(LogEvent::TransactionStart { .. })));
    logger.log_transaction_finish(4, 1, "Success", 100, 1000, 5, 3, &at(11, 3));
    let records = logger.take_pending();
    assert_eq!(records.len(), 2);
    assert_eq!(records[0].file, LogFileType::ExecutionFlow);
    assert_eq!(records[1].file, LogFileType::Execution);
}

#[test]
fn disabled_logger_writes_nothing() {
    let mut logger = BlockSTMLogger::new(config(false, LogLevel::Debug), context());
    logger.log_transaction_start(0, 0, &at(1, 1));
    logger.log_transaction_finish(0, 0, "Success", 100, 1000, 5, 3, &at(2, 1));
    assert!(logger.take_pending().is_empty());
}

#[test]
fn separated_stalls_are_counted_and_summed() {
    let mut logger = BlockSTMLogger::new(config(true, LogLevel::Debug), context());
    assert_eq!(logger.increment_transaction_stalls(), 1);
    assert_eq!(logger.increment_transaction_stalls(), 2);
    assert_eq!(logger.increment_system_stalls(), 1);
    let counts = logger.get_separated_stall_counts();
    assert_eq!(counts.transaction_stalls, 2);
    assert_eq!(counts.system_stalls, 1);
    assert_eq!(counts.total_stalls, 3);
    assert_eq!(logger.get_total_stall_count_separated(), 3);
}

#[test]
fn transaction_stall_events_go_to_their_file() {
    let mut logger = BlockSTMLogger::new(config(true, LogLevel::Debug), context());
    logger.log_transaction_stall_add(5, 1, 2, true, &at(100, 1));
    logger.log_transaction_stall_remove(5, 1, 2, true, &at(250, 1));
    assert_eq!(logger.get_transaction_stall_count(), 1);
    let records = logger.take_pending();
    assert_eq!(records.len(), 2);
    assert!(records.iter().all(|r| r.file == LogFileType::TransactionStalls));
    assert!(matches!(records[0].line, LogLine::Event(LogEvent::TransactionStallAdd { txn_id: 5, .. })));
    assert!(matches!(records[1].line, LogLine::Event(LogEvent::TransactionStallRemove { txn_id: 5, .. })));
    assert_eq!(logger.get_separated_stall_counts().transaction_stall_duration_total_us, 150);
}

#[test]
fn system_stall_events_go_to_their_file() {
    let mut logger = BlockSTMLogger::new(config(true, LogLevel::Debug), context());
    logger.log_system_stall_start(3, 8, "idle", &at(100, 1));
    let records = logger.take_pending();
    assert!(records.iter().any(|r| r.file == LogFileType::SystemStalls
        && matches!(r.line, LogLine::Event(LogEvent::SystemStallStart { .. }))));
}

#[test]
fn unstall_counts_the_stall_time() {
    let mut logger = BlockSTMLogger::new(config(true, LogLevel::Debug), context());
    logger.reset_stall_statistics(&at(1, 1));
    logger.log_stall_add(4, 1, 2, 1, true, &at(100, 1));
    logger.log_stall_remove(4, 1, 2, 0, true, &at(600, 1));
    assert_eq!(logger.get_total_stall_time_ns(), 500_000);
    assert_eq!(logger.get_separated_stall_counts().transaction_stall_duration_total_us, 500);
    let records = logger.take_pending();
    assert!(records.iter().any(|r| r.file == LogFileType::StallEvents
        && matches!(&r.line, LogLine::StallDuration(d) if d.match_type == "exact" && d.stall_duration_ns == 500_000)));
}

#[test]
fn unstall_without_a_start_is_not_found() {
    let mut logger = BlockSTMLogger::new(config(true, LogLevel::Debug), context());
    logger.log_stall_remove(4, 1, 2, 0, true, &at(600, 1));
    assert_eq!(logger.get_total_stall_time_ns(), 0);
    let records = logger.take_pending();
    assert!(records.iter().any(|r| matches!(&r.line, LogLine::StallDuration(d) if d.match_type == "notfound")));
}

#[test]
fn test_logger_initialization() {
    let mut logger = BlockSTMLogger::new(config(true, LogLevel::Debug), context());
    logger.log_transaction_start(0, 0, &at(1, 1));
    logger.log_transaction_finish(0, 0, "Success", 100_000, 1000, 5, 3, &at(2, 1));
    let records = logger.take_pending();
    let execution_log: Vec<&LogRecord> =
        records.iter().filter(|r| r.file.filename() == "block_stm_execution.log").collect();
    assert!(logger.has_file(LogFileType::Execution));
    assert!(execution_log.iter().any(|r| matches!(r.line, LogLine::Event(LogEvent::TransactionStart { transaction_id: 0, incarnation: 0, .. }))));
    let finish = execution_log
        .iter()
        .find(|r| matches!(r.line, LogLine::Event(LogEvent::TransactionFinish { .. })))
        .expect("TransactionFinish");
    match &finish.line {
        LogLine::Event(LogEvent::TransactionFinish { execution_result, duration_us, gas_used, read_set_size, write_set_size, .. }) => {
            assert_eq!(execution_result, "Success");
            assert_eq!(*duration_us, 100_000);
            assert_eq!(*gas_used, 1000);
            assert_eq!(*read_set_size, 5);
            assert_eq!(*write_set_size, 3);
        }
        _ => panic!("Wrong event type"),
    }
}

#[test]
fn block_stm_logger_test_test_log_levels() {
    let mut logger = BlockSTMLogger::new(config(true, LogLevel::Info), context());
    logger.log_transaction_start(0, 0, &at(1, 1));
    logger.log_dependency_stall(0, 0, vec![1, 2], 0, &at(2, 1));
    let records = logger.take_pending();
    let execution_log: Vec<&LogRecord> =
        records.iter().filter(|r| r.file.filename() == "block_stm_execution.log").collect();
    assert!(execution_log.iter().any(|r| matches!(r.line, LogLine::Event(LogEvent::TransactionStart { .. }))));
    assert!(!records.iter().any(|r| matches!(r.line, LogLine::Event(LogEvent::DependencyBlock { .. }))));
    assert!(!records.iter().any(|r| r.file == LogFileType::Dependencies));
}

#[test]
fn test_performance_metrics_logging() {
    let mut logger = BlockSTMLogger::new(config(true, LogLevel::Debug), context());
    let data = vec![
        ("cache_hits".to_string(), "150".to_string()),
        ("cache_misses".to_string(), "25".to_string()),
    ];
    logger.log_performance_metric("execution_time_ms", 125.5f64.to_bits(), Some(3), data, &at(5, 1));
    let records = logger.take_pending();
    assert!(logger.has_file(LogFileType::Performance));
    let performance_log: Vec<&LogRecord> =
        records.iter().filter(|r| r.file.filename() == "block_stm_performance.log").collect();
    assert_eq!(performance_log.len(), 1);
    match &performance_log[0].line {
        LogLine::Event(LogEvent::PerformanceMetric { metric_name, metric_value_bits, transaction_id, additional_data, .. }) => {
            assert_eq!(metric_name, "execution_time_ms");
            assert_eq!(f64::from_bits(*metric_value_bits), 125.5);
            assert_eq!(*transaction_id, Some(3));
            assert!(additional_data.iter().any(|(k, v)| k == "cache_hits" && v == "150"));
        }
        _ => panic!("Wrong event type"),
    }
}

#[test]
fn test_read_write_set_logging() {
    let mut logger = BlockSTMLogger::new(config(true, LogLevel::Debug), context());
    logger.log_readwrite_set_change(
        5,
        1,
        vec!["read_key1".to_string(), "read_key2".to_string()],
        vec!["write_key1".to_string()],
        2,
        1,
        0,
        0,
        0,
        0,
        &at(9, 1),
    );
    let records = logger.take_pending();
    assert!(logger.has_file(LogFileType::ReadWrite));
    let readwrite_log: Vec<&LogRecord> =
        records.iter().filter(|r| r.file.filename() == "block_stm_readwrite.log").collect();
    assert_eq!(readwrite_log.len(), 1);
    match &readwrite_log[0].line {
        LogLine::Event(LogEvent::ReadWriteSetChange { read_keys, write_keys, resource_reads, resource_writes, .. }) => {
            assert!(read_keys.iter().any(|k| k == "read_key1"));
            assert!(write_keys.iter().any(|k| k == "write_key1"));
            assert_eq!(*resource_reads, 2);
            assert_eq!(*resource_writes, 1);
        }
        _ => panic!("Wrong event type"),
    }
}

#[test]
fn test_disabled_logging() {
    let mut logger = BlockSTMLogger::new(config(false, LogLevel::Debug), context());
    logger.log_transaction_start(0, 0, &at(1, 1));
    assert_eq!(LogFileType::Execution.filename(), "block_stm_execution.log");
    assert!(!logger.has_file(LogFileType::Execution));
    assert!(logger.take_pending().is_empty());
}

#[test]
fn test_global_logger_initialization() {
    let mut slot: Option<BlockSTMLogger> = None;
    assert!(init_global_logger(&mut slot, config(true, LogLevel::Info), context(), Ok(())).is_ok());
    assert!(slot.is_some());
}

#[test]
fn system_stall_length_is_measured() {
    let mut logger = BlockSTMLogger::new(config(true, LogLevel::Debug), context());
    logger.start_system_stall(2, &at(1000, 1));
    assert_eq!(logger.end_system_stall(2, &at(4000, 1)), Some(3000));
    assert_eq!(logger.end_system_stall(2, &at(5000, 1)), None);
    assert_eq!(logger.get_separated_stall_counts().system_stall_duration_total_us, 3000);
}

#[test]
fn stall_time_and_events_accumulate_and_reset() {
    let mut logger = BlockSTMLogger::new(config(true, LogLevel::Debug), context());
    logger.increment_stall_events();
    logger.increment_stall_events();
    logger.record_stall_time(500);
    logger.record_stall_time(700);
    assert_eq!(logger.get_stall_events_count(), 2);
    assert_eq!(logger.get_total_stall_time_ns(), 1200);
    logger.reset_stall_statistics(&at(9, 1));
    assert_eq!(logger.get_stall_events_count(), 0);
    assert_eq!(logger.get_total_stall_time_ns(), 0);
    assert_eq!(logger.get_transaction_stall_count(), 0);
}

#[test]
fn participating_threads_come_out_in_order_once() {
    let mut logger = BlockSTMLogger::new(config(true, LogLevel::Debug), context());
    logger.record_participating_thread(9);
    logger.record_participating_thread(3);
    logger.record_participating_thread(9);
    logger.record_participating_thread(5);
    assert_eq!(logger.get_participating_threads(), vec![3, 5, 9]);
}

#[test]
fn transaction_execution_is_timed() {
    let mut logger = BlockSTMLogger::new(config(true, LogLevel::Debug), context());
    logger.start_transaction_execution(7, 1, &at(1000, 1));
    logger.finish_transaction_execution(7, 1, &at(3000, 1));
    let st = logger.get_transaction_stats(7).unwrap();
    assert!(st.first_execution);
    assert_eq!(st.execution_time_us, 2000);
    assert_eq!(st.task_kind, "Execute");
    assert_eq!(st.reexecution_count, 0);
    logger.start_transaction_execution(7, 2, &at(4000, 1));
    let st = logger.get_transaction_stats(7).unwrap();
    assert!(!st.first_execution);
    assert_eq!(st.reexecution_count, 1);
    assert!(logger.get_transaction_stats(8).is_none());
}

#[test]
fn execution_logger_is_set_up_once() {
    let mut slot: Option<BlockSTMLogger> = None;
    assert!(init_global_logger(&mut slot, config(true, LogLevel::Info), context(), Ok(())).is_ok());
    assert!(slot.is_some());
    match init_global_logger(&mut slot, config(true, LogLevel::Info), context(), Ok(())) {
        Err(InitError::AlreadyExists(m)) => assert_eq!(m, "全局日志记录器已初始化"),
        _ => panic!("second set-up accepted"),
    }
    let mut empty: Option<BlockSTMLogger> = None;
    let failure = std::io::Error::new(std::io::ErrorKind::WriteZero, "no space");
    match init_global_logger(&mut empty, config(true, LogLevel::Info), context(), Err(failure)) {
        Err(InitError::Io(e)) => {
            assert_eq!(e.kind(), std::io::ErrorKind::WriteZero);
            assert_eq!(e.to_string(), "no space");
        }
        _ => panic!("failure not reported"),
    }
    assert!(empty.is_none());
    assert!(init_global_logger(&mut empty, config(true, LogLevel::Info), context(), Ok(())).is_ok());
    assert!(empty.is_some());
}
