//! Running a solution against test cases and showing how it did.

pub mod diff;
pub mod lines;
pub mod spans;
pub mod test_run;

pub use test_run::{TestResult, TestRun};
