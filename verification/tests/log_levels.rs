use blockstm_logging::config::{LogLevel, LoggingConfig};

#[test]
fn block_stm_logger_test_log_levels() {
    assert!(LogLevel::Debug < LogLevel::Info);
    assert!(LogLevel::Info < LogLevel::Warn);
    assert!(LogLevel::Warn < LogLevel::Error);
}

#[test]
fn test_log_level_parsing() {
    assert_eq!("DEBUG".parse::<LogLevel>().unwrap(), LogLevel::Debug);
    assert_eq!("INFO".parse::<LogLevel>().unwrap(), LogLevel::Info);
    assert_eq!("WARN".parse::<LogLevel>().unwrap(), LogLevel::Warn);
    assert_eq!("ERROR".parse::<LogLevel>().unwrap(), LogLevel::Error);
}

#[test]
fn level_names_are_read_without_regard_to_case() {
    assert_eq!("debug".parse::<LogLevel>().unwrap(), LogLevel::Debug);
    assert_eq!("Warn".parse::<LogLevel>().unwrap(), LogLevel::Warn);
    assert_eq!(LogLevel::parse_name("eRRor"), Ok(LogLevel::Error));
}

#[test]
fn unknown_level_name_is_refused_with_its_text() {
    assert_eq!(LogLevel::parse_name("verbose"), Err("Invalid log level: verbose".to_string()));
    assert!("".parse::<LogLevel>().is_err());
}

#[test]
fn level_ranks_follow_severity() {
    assert_eq!(LogLevel::Debug.rank(), 0);
    assert_eq!(LogLevel::Info.rank(), 1);
    assert_eq!(LogLevel::Warn.rank(), 2);
    assert_eq!(LogLevel::Error.rank(), 3);
    assert!(LogLevel::Debug.is_below(&LogLevel::Info));
    assert!(!LogLevel::Error.is_below(&LogLevel::Error));
}

#[test]
fn settings_select_the_configuration() {
    let c = LoggingConfig::from_settings(Some("warn"), Some("/tmp/x"), Some("7"));
    assert!(c.enabled);
    assert_eq!(c.log_dir, "/tmp/x");
    assert_eq!(c.log_level, LogLevel::Warn);
    assert_eq!(c.max_file_size, 7 * 1024 * 1024);
    assert_eq!(c.buffer_size, 8192);
    assert!(c.async_logging);
    assert!(c.include_read_write_details);
}

#[test]
fn absent_settings_give_the_defaults() {
    let c = LoggingConfig::from_settings(None, None, None);
    assert!(!c.enabled);
    assert_eq!(c.log_dir, "./logs");
    assert_eq!(c.log_level, LogLevel::Info);
    assert_eq!(c.max_file_size, 100 * 1024 * 1024);
}

#[test]
fn unreadable_settings_fall_back() {
    let c = LoggingConfig::from_settings(Some("loud"), None, Some("lots"));
    assert!(c.enabled);
    assert_eq!(c.log_level, LogLevel::Info);
    assert_eq!(c.max_file_size, 100 * 1024 * 1024);
}

#[test]
fn variant_names_read_back_in_any_case() {
    for l in [LogLevel::Debug, LogLevel::Info, LogLevel::Warn, LogLevel::Error] {
        let name = format!("{:?}", l);
        assert_eq!(name.parse::<LogLevel>(), Ok(l));
        assert_eq!(name.to_lowercase().parse::<LogLevel>(), Ok(l));
    }
}
