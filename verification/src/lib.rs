//! Runs test scripts, captures what they print and reports the results.
//!
//! The library holds the parts that decide and compute: stamping and
//! collecting output fragments, merging the two output streams in time
//! order, gluing fragments into lines, classifying how a script ended and
//! summing everything up into a report. Spawning processes, reading pipes
//! and writing the report are left to the program around it.

pub mod timestamp;
pub mod text;
pub mod logline;
pub mod join;
pub mod merge;
pub mod capture;
pub mod model;
pub mod decimal;
pub mod report;
