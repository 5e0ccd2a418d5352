//! The settings of the Android wrapper of the library
use vstd::prelude::*;

pub mod advertise;

verus! {
} // verus!
