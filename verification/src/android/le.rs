//! Bluetooth LE on Android
use vstd::prelude::*;

pub mod advertise;
pub mod scan;

verus! {
} // verus!
