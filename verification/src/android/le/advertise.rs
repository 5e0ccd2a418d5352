//! Advertising settings
use vstd::prelude::*;

verus! {

/// The advertising mode
#[derive(Clone, Copy, Debug, PartialEq, Eq, Structural)]
pub enum Mode {
    Balanced,
    LowLatency,
    LowPower,
}

/// The transmission power level of advertising
#[derive(Clone, Copy, Debug, PartialEq, Eq, Structural)]
pub enum TxPowerLevel {
    High,
    Low,
    Medium,
    UltraLow,
}

} // verus!
