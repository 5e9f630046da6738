//! Differential checking of file-metadata and ownership operations under two
//! sandbox configurations: operation descriptors and their wire text, the
//! metadata record, the comparison policy and verdicts, launch requests, and
//! input generation with shrinking.
pub mod flags;
pub mod generate;
pub mod json;
pub mod launch;
pub mod setup;
pub mod stat;
pub mod syscall;
pub mod verdict;
