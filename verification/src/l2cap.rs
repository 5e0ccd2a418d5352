//! The parts of the Logical Link Control and Adaptation Protocol that the Attribute Protocol
//! rides on
use vstd::prelude::*;

verus! {

/// An L2CAP channel identifier
#[derive(Clone, Copy, Debug, PartialEq, Eq, Structural)]
pub struct ChannelIdentifier {
    pub cid: u16,
}

/// An L2CAP basic frame: the channel it is sent on and its payload
pub struct AclData {
    channel_id: ChannelIdentifier,
    payload: Vec<u8>,
}

impl AclData {
    pub fn new(payload: Vec<u8>, channel_id: ChannelIdentifier) -> (r: AclData)
        ensures
            r.spec_channel_id() == channel_id,
            r.spec_payload() == payload@,
    {
        AclData { channel_id, payload }
    }

    pub closed spec fn spec_channel_id(&self) -> ChannelIdentifier {
        self.channel_id
    }

    pub closed spec fn spec_payload(&self) -> Seq<u8> {
        self.payload@
    }

    pub fn get_channel_id(&self) -> (r: ChannelIdentifier)
        ensures
            r == self.spec_channel_id(),
    {
        self.channel_id
    }

    pub fn get_payload(&self) -> (r: &[u8])
        ensures
            r@ == self.spec_payload(),
    {
        self.payload.as_slice()
    }

    pub fn into_data(self) -> (r: Vec<u8>)
        ensures
            r@ == self.spec_payload(),
    {
        self.payload
    }
}

} // verus!
