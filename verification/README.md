# blockstm_logging

Structured logging and replay tooling for Block-STM parallel execution
benchmarks, with its decision logic verified by Verus.

## Layout

- `src/` — the verified library.
  - `config.rs`: log levels (ordering, parsing), the logging configuration and
    how environment settings select it, and the `Moment` a logger is handed.
  - `mv_log.rs`: the multi-version map logger: its events, the file each event
    belongs in, and the logger state that decides which events are written.
  - `stm_log.rs`: the execution logger: its events, the stall detail and stall
    length lines, and the execution and stall statistics it keeps.
  - `replay.rs`: reading historic transfers from CSV lines, numbering the
    accounts they name, the row mapping file, the mapping metrics, throughput
    figures, parameter sweeps and ERC20 sequence numbers.
  - `workload.rs`: the synthetic workloads (airdrop, ballot, sharded ballot,
    pixels, kitties, empty): senders, sequence numbers and random choices.
  - `text.rs`: decimal parsing and printing as std does them, trimming,
    splitting, searching and joining text.
- `tests/` — tests of the library on concrete values.
- `app/` — the program around the library: the log files and JSON forms of
  the events, the process-wide loggers, the CSV and mapping files, and the
  benchmark's command line.

The loggers never touch files: every accepted event is queued with the file
it belongs in, and the program writes the queue out.
