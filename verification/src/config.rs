//! Log levels and the logging configuration shared by both loggers.

use vstd::prelude::*;
use crate::text::{parse_u64, spec_parse_unsigned};

verus! {

/// Severity of a log event; a logger writes an event only when its level is
/// at least the configured one.
#[derive(Debug, Clone, Copy, PartialEq, Eq, Structural, PartialOrd, Ord, Hash)]
pub enum LogLevel {
    Debug,
    Info,
    Warn,
    Error,
}

/// Numeric severity of a level: `Debug` < `Info` < `Warn` < `Error`.
pub open spec fn level_rank(level: LogLevel) -> nat {
    match level {
        LogLevel::Debug => 0,
        LogLevel::Info => 1,
        LogLevel::Warn => 2,
        LogLevel::Error => 3,
    }
}

/// The level whose upper-case name is `name`, if any.
pub open spec fn level_named(name: Seq<char>) -> Option<LogLevel> {
    if name == "DEBUG"@ {
        Some(LogLevel::Debug)
    } else if name == "INFO"@ {
        Some(LogLevel::Info)
    } else if name == "WARN"@ {
        Some(LogLevel::Warn)
    } else if name == "ERROR"@ {
        Some(LogLevel::Error)
    } else {
        None
    }
}

/// The message of a refused level name.
pub open spec fn invalid_level_message(s: Seq<char>) -> Seq<char> {
    "Invalid log level: "@ + s
}

/// Whether every character of `s` is ASCII.
pub open spec fn is_ascii_text(s: Seq<char>) -> bool {
    forall|i: int| 0 <= i < s.len() ==> (#[trigger] s[i] as u32) < 128
}

/// The upper-case form of an ASCII character: `a` to `z` become `A` to `Z`,
/// every other character stays.
pub open spec fn ascii_upper_char(c: char) -> char {
    if 'a' <= c && c <= 'z' {
        ((c as u32) - 32) as char
    } else {
        c
    }
}

/// The lower-case form of an ASCII character: `A` to `Z` become `a` to `z`,
/// every other character stays.
pub open spec fn ascii_lower_char(c: char) -> char {
    if 'A' <= c && c <= 'Z' {
        ((c as u32) + 32) as char
    } else {
        c
    }
}

/// `s` with its ASCII letters in upper case.
pub open spec fn ascii_upper(s: Seq<char>) -> Seq<char> {
    s.map_values(|c: char| ascii_upper_char(c))
}

/// `s` with its ASCII letters in lower case.
pub open spec fn ascii_lower(s: Seq<char>) -> Seq<char> {
    s.map_values(|c: char| ascii_lower_char(c))
}

/// What `str::to_uppercase` returns for a string.
pub uninterp spec fn spec_to_uppercase(s: Seq<char>) -> Seq<char>;

/// Calls `str::to_uppercase`. The contract ties the result, by the name
/// `spec_to_uppercase`, to the characters of the argument, and states it for
/// ASCII text, where std's documented per-character upper-case mapping turns
/// `a` to `z` into `A` to `Z` and leaves every other character as it is; the
/// Unicode case tables that define it beyond ASCII are not restated.
#[verifier::external_body]
fn str_to_uppercase(s: &str) -> (r: String)
    ensures
        r@ == spec_to_uppercase(s@),
        is_ascii_text(s@) ==> r@ == ascii_upper(s@),
{
    s.to_uppercase()
}

/// Whether two string slices hold the same characters.
pub fn str_equal(a: &str, b: &str) -> (r: bool)
    ensures
        r == (a@ == b@),
{
    let x = String::from_str(a);
    let y = String::from_str(b);
    x == y
}

impl LogLevel {
    /// The numeric severity of this level.
    pub fn rank(&self) -> (r: u8)
        ensures
            r as nat == level_rank(*self),
    {
        match self {
            LogLevel::Debug => 0,
            LogLevel::Info => 1,
            LogLevel::Warn => 2,
            LogLevel::Error => 3,
        }
    }

    /// Whether this level is strictly below `other`.
    pub fn is_below(&self, other: &LogLevel) -> (r: bool)
        ensures
            r == (level_rank(*self) < level_rank(*other)),
    {
        self.rank() < other.rank()
    }

    /// The level whose name, already upper-cased, is `upper`.
    pub fn from_uppercase_name(upper: &str) -> (r: Option<LogLevel>)
        ensures
            r == level_named(upper@),
    {
        if str_equal(upper, "DEBUG") {
            Some(LogLevel::Debug)
        } else if str_equal(upper, "INFO") {
            Some(LogLevel::Info)
        } else if str_equal(upper, "WARN") {
            Some(LogLevel::Warn)
        } else if str_equal(upper, "ERROR") {
            Some(LogLevel::Error)
        } else {
            None
        }
    }

    /// Parses a level name without regard to case.
    pub fn parse_name(s: &str) -> (r: Result<LogLevel, String>)
        ensures
            match level_named(spec_to_uppercase(s@)) {
                Some(level) => r == Ok::<LogLevel, String>(level),
                None => r is Err && r->Err_0@ == invalid_level_message(s@),
            },
            is_ascii_text(s@) ==> match level_named(ascii_upper(s@)) {
                Some(level) => r == Ok::<LogLevel, String>(level),
                None => r is Err && r->Err_0@ == invalid_level_message(s@),
            },
    {
        let upper = str_to_uppercase(s);
        match LogLevel::from_uppercase_name(upper.as_str()) {
            Some(level) => Ok(level),
            None => {
                let mut msg = String::from_str("Invalid log level: ");
                msg.append(s);
                proof {
                    reveal_strlit("Invalid log level: ");
                }
                Err(msg)
            },
        }
    }
}

impl std::str::FromStr for LogLevel {
    type Err = String;

    fn from_str(s: &str) -> (r: Result<Self, Self::Err>)
        ensures
            match level_named(spec_to_uppercase(s@)) {
                Some(level) => r == Ok::<LogLevel, String>(level),
                None => r is Err && r->Err_0@ == invalid_level_message(s@),
            },
            is_ascii_text(s@) ==> match level_named(ascii_upper(s@)) {
                Some(level) => r == Ok::<LogLevel, String>(level),
                None => r is Err && r->Err_0@ == invalid_level_message(s@),
            },
    {
        LogLevel::parse_name(s)
    }
}


/// Index of a transaction within a block.
pub type TxnIndex = u32;

/// Number of the execution attempt of a transaction.
pub type Incarnation = u32;

/// The I/O error of std, carried through as it is: what failed and of which
/// kind.
#[verifier::external_type_specification]
#[verifier::external_body]
pub struct ExIoError(std::io::Error);

/// What the environment tells a logger at the moment of a call: the event
/// timestamp, the wall clock and a monotonic clock, and the calling thread.
#[derive(Debug, Clone, Copy, PartialEq, Eq, Structural)]
pub struct Moment {
    /// Timestamp written into events, in microseconds.
    pub timestamp_us: u64,
    /// Microseconds since the Unix epoch.
    pub wall_clock_us: u64,
    /// Nanoseconds on a monotonic clock, for measuring durations.
    pub monotonic_ns: u64,
    /// Identifier of the calling thread.
    pub thread_id: u64,
}

/// The characters of each string.
pub open spec fn strings_view(v: Seq<String>) -> Seq<Seq<char>> {
    v.map_values(|s: String| s@)
}

/// The characters of an optional string.
pub open spec fn opt_string_view(o: Option<String>) -> Option<Seq<char>> {
    match o {
        Some(s) => Some(s@),
        None => None,
    }
}

/// The characters of each pair of strings.
pub open spec fn pairs_view(v: Seq<(String, String)>) -> Seq<(Seq<char>, Seq<char>)> {
    v.map_values(|p: (String, String)| (p.0@, p.1@))
}

/// Configuration of a Block-STM logger.
pub struct LoggingConfig {
    /// Whether anything is logged at all.
    pub enabled: bool,
    /// Directory of the log files.
    pub log_dir: String,
    /// Lowest level that is written.
    pub log_level: LogLevel,
    /// Largest size of one log file, in bytes.
    pub max_file_size: u64,
    /// Capacity of each file buffer.
    pub buffer_size: usize,
    /// Whether logging is asynchronous (not used by the loggers).
    pub async_logging: bool,
    /// Whether read/write set details are logged.
    pub include_read_write_details: bool,
}

/// The number that a configured size in megabytes denotes, with the default
/// of one hundred where the setting is absent or not a number.
pub open spec fn size_setting_mb(setting: Option<Seq<char>>) -> nat {
    let text = match setting {
        Some(t) => t,
        None => "100"@,
    };
    match spec_parse_unsigned(text, u64::MAX as nat) {
        Some(v) => v,
        None => 100,
    }
}

/// The level that a level setting selects: the named level, or `Info` where
/// the name is not a level; an absent setting reads as "INFO".
pub open spec fn level_setting(setting: Option<Seq<char>>) -> LogLevel {
    let text = match setting {
        Some(t) => t,
        None => "INFO"@,
    };
    match level_named(spec_to_uppercase(text)) {
        Some(l) => l,
        None => LogLevel::Info,
    }
}

/// The characters of an optional string slice.
pub open spec fn opt_str_view(o: Option<&str>) -> Option<Seq<char>> {
    match o {
        Some(s) => Some(s@),
        None => None,
    }
}

impl LoggingConfig {
    /// A copy of this configuration.
    pub fn copy(&self) -> (r: LoggingConfig)
        ensures
            r.enabled == self.enabled,
            r.log_dir@ == self.log_dir@,
            r.log_level == self.log_level,
            r.max_file_size == self.max_file_size,
            r.buffer_size == self.buffer_size,
            r.async_logging == self.async_logging,
            r.include_read_write_details == self.include_read_write_details,
    {
        LoggingConfig {
            enabled: self.enabled,
            log_dir: self.log_dir.clone(),
            log_level: self.log_level,
            max_file_size: self.max_file_size,
            buffer_size: self.buffer_size,
            async_logging: self.async_logging,
            include_read_write_details: self.include_read_write_details,
        }
    }

    /// The configuration that the environment settings select: `level` is the
    /// log level setting (its presence enables logging), `dir` the log
    /// directory (default "./logs"), `max_size_mb` the largest file size in
    /// megabytes.
    pub fn from_settings(level: Option<&str>, dir: Option<&str>, max_size_mb: Option<&str>) -> (r:
        LoggingConfig)
        requires
            size_setting_mb(opt_str_view(max_size_mb)) * 1048576 <= u64::MAX,
        ensures
            r.enabled == level.is_some(),
            r.log_dir@ == (match dir {
                Some(d) => d@,
                None => "./logs"@,
            }),
            r.log_level == level_setting(opt_str_view(level)),
            r.max_file_size == size_setting_mb(opt_str_view(max_size_mb)) * 1048576,
            r.buffer_size == 8192,
            r.async_logging,
            r.include_read_write_details,
    {
        let enabled = level.is_some();
        let log_dir = match dir {
            Some(d) => String::from_str(d),
            None => String::from_str("./logs"),
        };
        let level_text = match level {
            Some(t) => t,
            None => "INFO",
        };
        let log_level = match LogLevel::parse_name(level_text) {
            Ok(l) => l,
            Err(_) => LogLevel::Info,
        };
        let size_text = match max_size_mb {
            Some(t) => t,
            None => "100",
        };
        let mb = match parse_u64(size_text) {
            Some(v) => v,
            None => 100,
        };
        LoggingConfig {
            enabled,
            log_dir,
            log_level,
            max_file_size: mb * 1024 * 1024,
            buffer_size: 8192,
            async_logging: true,
            include_read_write_details: true,
        }
    }
}


/// The name of a level's variant, as its `Debug` form prints it.
pub open spec fn level_variant_name(l: LogLevel) -> Seq<char> {
    match l {
        LogLevel::Debug => "Debug"@,
        LogLevel::Info => "Info"@,
        LogLevel::Warn => "Warn"@,
        LogLevel::Error => "Error"@,
    }
}

/// Lower-casing ASCII text changes nothing that upper-casing it then shows.
pub proof fn lemma_case_is_ignored(s: Seq<char>)
    ensures
        ascii_upper(ascii_lower(s)) == ascii_upper(s),
{
    assert(ascii_upper(ascii_lower(s)) =~= ascii_upper(s)) by {
        assert forall|i: int| 0 <= i < s.len() implies ascii_upper_char(ascii_lower_char(s[i]))
            == ascii_upper_char(s[i]) by {
            let c = s[i];
            if 'A' <= c && c <= 'Z' {
                assert(ascii_lower_char(c) as u32 == c as u32 + 32);
            }
        }
    }
}

/// A level's variant name, in any mix of ASCII letter case, reads back as
/// that level: text whose upper-case form is that of the name parses to it.
pub proof fn lemma_level_name_reads_back(l: LogLevel, s: Seq<char>)
    requires
        ascii_upper(s) == ascii_upper(level_variant_name(l)),
    ensures
        level_named(ascii_upper(s)) == Some(l),
        level_named(ascii_upper(ascii_lower(s))) == Some(l),
        is_ascii_text(level_variant_name(l)),
{
    reveal_strlit("Debug");
    reveal_strlit("Info");
    reveal_strlit("Warn");
    reveal_strlit("Error");
    reveal_strlit("DEBUG");
    reveal_strlit("INFO");
    reveal_strlit("WARN");
    reveal_strlit("ERROR");
    lemma_case_is_ignored(s);
    let n = level_variant_name(l);
    match l {
        LogLevel::Debug => assert(ascii_upper(n) =~= "DEBUG"@),
        LogLevel::Info => {
            assert(ascii_upper(n) =~= "INFO"@);
            assert(ascii_upper(n) != "DEBUG"@);
        },
        LogLevel::Warn => {
            assert(ascii_upper(n) =~= "WARN"@);
            assert(ascii_upper(n) != "DEBUG"@);
            assert("WARN"@[0] != "INFO"@[0]);
        },
        LogLevel::Error => {
            assert(ascii_upper(n) =~= "ERROR"@);
            assert("ERROR"@[0] != "DEBUG"@[0]);
            assert(ascii_upper(n) != "INFO"@);
            assert(ascii_upper(n) != "WARN"@);
        },
    }
}

/// Levels are ordered from the most detailed to the most severe: debug, info,
/// warning, error; a logger configured at one level keeps every later one.
pub proof fn lemma_levels_ordered()
    ensures
        level_rank(LogLevel::Debug) < level_rank(LogLevel::Info),
        level_rank(LogLevel::Info) < level_rank(LogLevel::Warn),
        level_rank(LogLevel::Warn) < level_rank(LogLevel::Error),
{
}
} // verus!
