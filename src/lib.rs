//! Parsing, cost modelling and bookkeeping for running benchmarks under
//! valgrind's callgrind and related tools.
//!
//! The library reads callgrind's text output (`parser`), derives cache hit counts
//! and an estimate of cycles (`stats`), compares costs with a previous run
//! (`diff`, `summary`), canonicalizes callgrind's arguments (`args`), names and
//! rotates output files (`output`), reads valgrind's log files (`logfile`), and
//! holds the runner's decisions on hooks, ids, versions and exit codes (`bench`,
//! `tool`). Running processes and touching the file system is left to callers.

pub mod args;
pub mod bench;
pub mod diff;
pub mod events;
pub mod logfile;
pub mod output;
pub mod parser;
pub mod positions;
pub mod sentinel;
pub mod stats;
pub mod summary;
pub mod text;
pub mod tool;
