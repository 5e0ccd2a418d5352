//! The Generic Access Profile
use vstd::prelude::*;

pub mod advertise;

verus! {

/// The minimum number of data bytes in an attribute protocol based packet for bluetooth le
pub const MIN_ATT_MTU_LE: u16 = 23;

/// The minimum number of data bytes in an attribute protocol based packet for bluetooth BR/EDR
pub const MIN_ATT_MTU_BR_EDR: u16 = 48;

/// A connection to another device over which Attribute Protocol data is sent
///
/// Implementors give the default ATT MTU of the connection, which is at least the minimum MTU
/// of LE, and send the data handed to them; `spec_sent` tells what was handed to `send`.
pub trait ConnectionChannel {
    /// The default ATT MTU of the connection
    spec fn spec_default_att_mtu() -> u16;

    /// The default ATT MTU of the connection
    fn default_att_mtu() -> (r: u16)
        ensures
            r == Self::spec_default_att_mtu(),
            r >= MIN_ATT_MTU_LE;

    /// Whether `data` has been handed to `send` on this connection
    spec fn spec_sent(&self, data: crate::l2cap::AclData) -> bool;

    /// Send data to the connected device
    fn send(&self, data: crate::l2cap::AclData)
        ensures
            self.spec_sent(data);
}

/// Whether the bytes `payload` have been sent on the channel of the Attribute Protocol over
/// `channel`
pub open spec fn spec_sent_att<C: ConnectionChannel>(channel: C, payload: Seq<u8>) -> bool {
    exists|d: crate::l2cap::AclData| #[trigger] channel.spec_sent(d)
        && d.spec_channel_id().cid == crate::att::ATT_CID && d.spec_payload() == payload
}

} // verus!
