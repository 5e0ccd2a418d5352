use vstd::prelude::*;

pub mod uuid;
pub mod att;
pub mod l2cap;
pub mod gatt;
pub mod gap;
pub mod android;
pub mod linux;

pub use uuid::UUID;

verus! {
} // verus!
