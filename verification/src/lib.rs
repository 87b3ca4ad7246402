//! Building blocks of a fair decode benchmark for LEB128 varint streams:
//! the stream file format, the scenario table, the timed decode run and the
//! integer side of its report.

pub mod clock;
pub mod config;
pub mod report;
pub mod runner;
pub mod scenario;
pub mod stream;
pub mod varint;
