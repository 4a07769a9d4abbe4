use blockstm_logging::config::{LogLevel, LoggingConfig, Moment};
use blockstm_logging::mv_log::{init_global_logger, BlockSTMLogger, InitError, LogEvent, LogFileType};

fn config(enabled: bool, level: LogLevel) -> LoggingConfig {
    LoggingConfig {
        enabled,
        log_dir: "/tmp/blockstm-test".to_string(),
        log_level: level,
        max_file_size: 1024 * 1024,
        buffer_size: 1024,
        async_logging: false,
        include_read_write_details: true,
    }
}

fn at(ts: u64) -> Moment {
    Moment { timestamp_us: ts, wall_clock_us: ts, monotonic_ns: ts * 1000, thread_id: 7 }
}

#[test]
fn test_logger_creation() {
    let mut logger = BlockSTMLogger::new(config(true, LogLevel::Debug));
    logger.log_transaction_start(1, 0, &at(10));
    let records = logger.take_pending();
    assert!(logger.has_file(LogFileType::Execution));
    assert_eq!(LogFileType::Execution.filename(), "block_stm_execution.log");
    assert!(records.iter().any(|r| r.file == LogFileType::Execution
        && matches!(r.event, LogEvent::TransactionStart { transaction_id: 1, incarnation: 0, .. })));
}

#[test]
fn map_logger_records_start_and_finish() {
    let mut logger = BlockSTMLogger::new(config(true, LogLevel::Debug));
    logger.log_transaction_start(0, 0, &at(1));
    logger.log_transaction_finish(0, 0, "Success", 100_000, 1000, 5, 3, &at(2));
    let records = logger.take_pending();
    assert_eq!(records.len(), 2);
    assert!(records.iter().all(|r| r.file == LogFileType::Execution));
    assert!(matches!(records[0].event, LogEvent::TransactionStart { .. }));
    match &records[1].event {
        LogEvent::TransactionFinish { execution_result, duration_us, gas_used, read_set_size, write_set_size, .. } => {
            assert_eq!(execution_result, "Success");
            assert_eq!(*duration_us, 100_000);
            assert_eq!(*gas_used, 1000);
            assert_eq!(*read_set_size, 5);
            assert_eq!(*write_set_size, 3);
        }
        _ => panic!("Wrong event type"),
    }
}

#[test]
fn map_logger_drops_debug_events_at_info() {
    let mut logger = BlockSTMLogger::new(config(true, LogLevel::Info));
    logger.log_transaction_start(0, 0, &at(1));
    logger.log_dependency_stall(0, vec![1, 2], &at(2));
    let records = logger.take_pending();
    assert!(records.iter().any(|r| r.file == LogFileType::Execution
        && matches!(r.event, LogEvent::TransactionStart { .. })));
    assert!(!records.iter().any(|r| r.file == LogFileType::Concurrency
        || matches!(r.event, LogEvent::DependencyStall { .. })));
    assert_eq!(LogFileType::Concurrency.filename(), "block_stm_concurrency.log");
}

#[test]
fn map_logger_writes_performance_metrics() {
    let mut logger = BlockSTMLogger::new(config(true, LogLevel::Debug));
    let data = vec![
        ("cache_hits".to_string(), "150".to_string()),
        ("cache_misses".to_string(), "25".to_string()),
    ];
    logger.log_performance_metric("execution_time_ms", 125.5f64.to_bits(), Some(3), data, &at(5));
    let records = logger.take_pending();
    assert_eq!(records.len(), 1);
    assert_eq!(records[0].file, LogFileType::Performance);
    assert_eq!(records[0].file.filename(), "block_stm_performance.log");
    match &records[0].event {
        LogEvent::PerformanceMetric { metric_name, metric_value_bits, transaction_id, additional_data, .. } => {
            assert_eq!(metric_name, "execution_time_ms");
            assert_eq!(f64::from_bits(*metric_value_bits), 125.5);
            assert_eq!(*transaction_id, Some(3));
            assert!(additional_data.iter().any(|(k, v)| k == "cache_hits" && v == "150"));
        }
        _ => panic!("Wrong event type"),
    }
}

#[test]
fn map_logger_writes_read_write_sets() {
    let mut logger = BlockSTMLogger::new(config(true, LogLevel::Debug));
    logger.log_readwrite_set_change(
        5,
        1,
        vec!["read_key1".to_string(), "read_key2".to_string()],
        vec!["write_key1".to_string()],
        2,
        1,
        0,
        0,
        0,
        0,
        &at(9),
    );
    let records = logger.take_pending();
    assert_eq!(records.len(), 1);
    assert_eq!(records[0].file.filename(), "block_stm_readwrite.log");
    match &records[0].event {
        LogEvent::ReadWriteSetChange { read_keys, write_keys, resource_reads, resource_writes, .. } => {
            assert!(read_keys.iter().any(|k| k == "read_key1"));
            assert!(write_keys.iter().any(|k| k == "write_key1"));
            assert_eq!(*resource_reads, 2);
            assert_eq!(*resource_writes, 1);
        }
        _ => panic!("Wrong event type"),
    }
}

#[test]
fn read_write_details_off_writes_no_set_change() {
    let mut c = config(true, LogLevel::Debug);
    c.include_read_write_details = false;
    let mut logger = BlockSTMLogger::new(c);
    logger.log_readwrite_set_change(5, 1, vec!["k".to_string()], vec![], 1, 0, 0, 0, 0, 0, &at(9));
    assert!(logger.take_pending().is_empty());
}

#[test]
fn disabled_map_logger_writes_nothing() {
    let mut logger = BlockSTMLogger::new(config(false, LogLevel::Debug));
    logger.log_transaction_start(0, 0, &at(1));
    assert!(!logger.has_file(LogFileType::Execution));
    assert!(logger.open_files().is_empty());
    assert!(logger.take_pending().is_empty());
}

#[test]
fn map_global_logger_is_set_up() {
    let mut slot: Option<BlockSTMLogger> = None;
    assert!(init_global_logger(&mut slot, config(true, LogLevel::Info), Ok(())).is_ok());
    assert!(slot.is_some());
}

#[test]
fn global_logger_is_set_up_once() {
    let mut slot: Option<BlockSTMLogger> = None;
    assert!(init_global_logger(&mut slot, config(true, LogLevel::Info), Ok(())).is_ok());
    match init_global_logger(&mut slot, config(false, LogLevel::Debug), Ok(())) {
        Err(InitError::AlreadyExists(m)) => assert_eq!(m, "Logger already initialized"),
        _ => panic!("second set-up accepted"),
    }
    assert!(slot.as_ref().unwrap().config().enabled);
}

#[test]
fn failed_file_set_up_leaves_no_logger() {
    let mut slot: Option<BlockSTMLogger> = None;
    let failure = std::io::Error::new(std::io::ErrorKind::PermissionDenied, "permission denied");
    match init_global_logger(&mut slot, config(true, LogLevel::Info), Err(failure)) {
        Err(InitError::Io(e)) => {
            assert_eq!(e.kind(), std::io::ErrorKind::PermissionDenied);
            assert_eq!(e.to_string(), "permission denied");
        }
        _ => panic!("failure not reported"),
    }
    assert!(slot.is_none());
    assert!(init_global_logger(&mut slot, config(true, LogLevel::Info), Ok(())).is_ok());
    assert!(slot.is_some());
}

#[test]
fn enabled_logger_opens_every_file() {
    let logger = BlockSTMLogger::new(config(true, LogLevel::Error));
    assert_eq!(logger.open_files().len(), 5);
    for f in [
        LogFileType::Execution,
        LogFileType::Concurrency,
        LogFileType::ReadWrite,
        LogFileType::Performance,
        LogFileType::Summary,
    ] {
        assert!(logger.has_file(f));
    }
    assert_eq!(LogFileType::Summary.filename(), "block_stm_summary.log");
}

#[test]
fn each_event_goes_to_its_file_once() {
    let mut logger = BlockSTMLogger::new(config(true, LogLevel::Debug));
    logger.log_validation(3, true, 12, &at(1));
    logger.log_mvhashmap_write(3, 0, "key", 8, "Value", &at(2));
    logger.log_transaction_abort(3, 0, "conflict", 1, vec![2], &at(3));
    let records = logger.take_pending();
    assert_eq!(records.len(), 3);
    assert_eq!(records[0].file, LogFileType::Summary);
    assert_eq!(records[1].file, LogFileType::ReadWrite);
    assert_eq!(records[2].file, LogFileType::Concurrency);
    for r in &records {
        assert_eq!(r.event.route(), r.file);
    }
    assert!(logger.take_pending().is_empty());
}

#[test]
fn events_below_the_level_are_dropped() {
    let mut logger = BlockSTMLogger::new(config(true, LogLevel::Error));
    logger.log_transaction_start(0, 0, &at(1));
    logger.log_event(
        LogEvent::TransactionStart { transaction_id: 9, incarnation: 1, thread_id: 1, timestamp: 4 },
        LogLevel::Error,
    );
    let records = logger.take_pending();
    assert_eq!(records.len(), 1);
    assert!(matches!(records[0].event, LogEvent::TransactionStart { transaction_id: 9, .. }));
}
