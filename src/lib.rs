//! A load-generation harness for a tree-structured coordination service:
//! the verified core that partitions work among workers, drives each worker,
//! prepares the namespace and turns elapsed time into throughput.
pub mod partition;
pub mod worker;
pub mod path;
pub mod error;
pub mod option;
pub mod prepare;
pub mod bench;
pub mod args;
