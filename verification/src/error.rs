use vstd::prelude::*;

verus! {

/// Errors surfaced by the consensus core.
#[derive(Clone, Copy, PartialEq, Eq, Structural, Debug)]
pub enum ConsensusError {
    /// Missing or invalid local key material at startup.
    KeyError,
    /// Invalid selector configuration: no participants or a weight total
    /// that is zero or does not fit the weight counter.
    ConfigError,
    /// Slot arithmetic would wrap the period counter.
    SlotOverflowError,
    /// Timestamp arithmetic left the representable range.
    TimeOverflowError,
}

} // verus!
