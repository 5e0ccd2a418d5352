//! Bluetooth UUIDs
//!
//! A UUID is kept as its full 128 bit value. The 16 and 32 bit short forms are aliases
//! that live within the Bluetooth base UUID: the short value occupies the upper 32 bits and
//! the lower 96 bits are those of the base UUID.
use vstd::prelude::*;

verus! {

/// The lower 96 bits of the Bluetooth base UUID (`00000000-0000-1000-8000-00805F9B34FB`)
pub const BLUETOOTH_BASE_UUID: u128 = 0x0000_0000_0000_1000_8000_0080_5F9B_34FB;

/// The weight of the lowest bit of a short UUID within the 128 bit value (2 to the 96th)
pub const SHORT_UUID_SHIFT: u128 = 0x1_0000_0000_0000_0000_0000_0000;

/// A universally unique identifier as used by Bluetooth
#[derive(Clone, Copy, Debug, PartialEq, Eq, PartialOrd, Ord, Hash, Default)]
pub struct UUID {
    base_uuid: u128,
}

impl View for UUID {
    type V = u128;

    closed spec fn view(&self) -> u128 {
        self.base_uuid
    }
}

/// The 128 bit value of the UUID with the short form `v`
pub open spec fn spec_uuid_of_short(v: int) -> int {
    v * SHORT_UUID_SHIFT + BLUETOOTH_BASE_UUID
}

/// Whether the 128 bit value `u` has a short form of at most `bits` bits
pub open spec fn spec_is_short(u: u128, bound: int) -> bool {
    &&& u % SHORT_UUID_SHIFT == BLUETOOTH_BASE_UUID
    &&& u / SHORT_UUID_SHIFT < bound
}

/// The 16 bit short form of a 128 bit UUID value, if it has one
pub open spec fn spec_short_u16(u: u128) -> Option<u16> {
    if spec_is_short(u, 0x1_0000) {
        Some((u / SHORT_UUID_SHIFT) as u16)
    } else {
        None
    }
}

/// The 32 bit short form of a 128 bit UUID value, if it has one
pub open spec fn spec_short_u32(u: u128) -> Option<u32> {
    if spec_is_short(u, 0x1_0000_0000) {
        Some((u / SHORT_UUID_SHIFT) as u32)
    } else {
        None
    }
}

impl UUID {
    /// Create a UUID from its 16 bit short form
    pub fn from_u16(v: u16) -> (r: UUID)
        ensures
            r@ == spec_uuid_of_short(v as int),
    {
        UUID { base_uuid: (v as u128) * SHORT_UUID_SHIFT + BLUETOOTH_BASE_UUID }
    }

    /// Create a UUID from its 32 bit short form
    pub fn from_u32(v: u32) -> (r: UUID)
        ensures
            r@ == spec_uuid_of_short(v as int),
    {
        assert((v as u128) * SHORT_UUID_SHIFT <= 0xFFFF_FFFFu128 * SHORT_UUID_SHIFT) by (nonlinear_arith)
            requires v <= 0xFFFF_FFFFu32;
        UUID { base_uuid: (v as u128) * SHORT_UUID_SHIFT + BLUETOOTH_BASE_UUID }
    }

    /// Create a UUID from its full 128 bit value
    pub fn from_u128(v: u128) -> (r: UUID)
        ensures
            r@ == v,
    {
        UUID { base_uuid: v }
    }

    /// The full 128 bit value of the UUID
    pub fn into_u128(&self) -> (r: u128)
        ensures
            r == self@,
    {
        self.base_uuid
    }

    /// The 16 bit short form of this UUID, or `None` where it has none
    pub fn try_into_u16(&self) -> (r: Option<u16>)
        ensures
            r == spec_short_u16(self@),
    {
        if self.base_uuid % SHORT_UUID_SHIFT == BLUETOOTH_BASE_UUID
            && self.base_uuid / SHORT_UUID_SHIFT < 0x1_0000 {
            Some((self.base_uuid / SHORT_UUID_SHIFT) as u16)
        } else {
            None
        }
    }

    /// The 32 bit short form of this UUID, or `None` where it has none
    pub fn try_into_u32(&self) -> (r: Option<u32>)
        ensures
            r == spec_short_u32(self@),
    {
        if self.base_uuid % SHORT_UUID_SHIFT == BLUETOOTH_BASE_UUID
            && self.base_uuid / SHORT_UUID_SHIFT < 0x1_0000_0000 {
            Some((self.base_uuid / SHORT_UUID_SHIFT) as u32)
        } else {
            None
        }
    }
}

/// A UUID made from a 16 bit short form gives that short form back, and its 128 bit value
/// is the one the short form stands for.
pub proof fn lemma_uuid_u16_roundtrip(v: u16)
    ensures
        spec_short_u16(spec_uuid_of_short(v as int) as u128) == Some(v),
        spec_uuid_of_short(v as int) <= u128::MAX,
{
    lemma_short_div_mod(v as int);
}

/// A UUID made from a 32 bit short form gives that short form back.
pub proof fn lemma_uuid_u32_roundtrip(v: u32)
    ensures
        spec_short_u32(spec_uuid_of_short(v as int) as u128) == Some(v),
        spec_uuid_of_short(v as int) <= u128::MAX,
{
    lemma_short_div_mod(v as int);
}

/// A UUID whose 16 bit short form is `v` is the UUID made from `v`.
pub proof fn lemma_uuid_short_u16_inverse(u: u128)
    ensures
        spec_short_u16(u) matches Some(v) ==> spec_uuid_of_short(v as int) == u,
{
    if spec_is_short(u, 0x1_0000) {
        vstd::arithmetic::div_mod::lemma_fundamental_div_mod(u as int, SHORT_UUID_SHIFT as int);
    }
}

proof fn lemma_short_div_mod(v: int)
    requires
        0 <= v < 0x1_0000_0000,
    ensures
        (v * SHORT_UUID_SHIFT + BLUETOOTH_BASE_UUID) % (SHORT_UUID_SHIFT as int) == BLUETOOTH_BASE_UUID,
        (v * SHORT_UUID_SHIFT + BLUETOOTH_BASE_UUID) / (SHORT_UUID_SHIFT as int) == v,
        v * SHORT_UUID_SHIFT + BLUETOOTH_BASE_UUID <= u128::MAX,
{
    vstd::arithmetic::div_mod::lemma_fundamental_div_mod_converse(
        v * SHORT_UUID_SHIFT + BLUETOOTH_BASE_UUID, SHORT_UUID_SHIFT as int, v, BLUETOOTH_BASE_UUID as int);
    assert(v * SHORT_UUID_SHIFT <= 0xFFFF_FFFF * SHORT_UUID_SHIFT) by (nonlinear_arith)
        requires 0 <= v < 0x1_0000_0000;
}

} // verus!
