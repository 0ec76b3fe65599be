//! Decisions of the first-stage mount: which device to wait for, what to
//! mount and move, and how to set up verity.

pub mod early_mount;
pub mod early_partitions;
pub mod verity;
