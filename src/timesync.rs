//! Kinds of time bases.
use vstd::prelude::*;

verus! {

/// The kind of a time base.
#[derive(Debug, Clone, Copy, PartialEq, Eq, Structural)]
pub enum TimeBaseType {
    SynchronizedMaster,
    SynchronizedSlave,
    OffsetMaster,
    OffsetSlave,
    Local,
}

} // verus!
