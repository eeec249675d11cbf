//! The test cases of a clash.

pub mod test_case;

pub use test_case::TestCase;
