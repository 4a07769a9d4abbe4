//! Verified core of the Block-STM execution logging system: log levels and
//! configuration, the event models of the two loggers, the bookkeeping of
//! execution and stall statistics, and the replay helpers of the benchmark.

pub mod config;
pub mod text;
pub mod mv_log;
pub mod stm_log;
pub mod replay;
pub mod workload;
