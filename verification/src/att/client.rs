//! The client side of the Attribute Protocol
use vstd::prelude::*;

verus! {

/// The PDUs that a client sends to a server
#[derive(Debug, Clone, Copy, PartialEq, Eq, Structural)]
pub enum ClientPduName {
    ExchangeMtuRequest,
    FindInformationRequest,
    FindByTypeValueRequest,
    ReadByTypeRequest,
    ReadRequest,
    ReadBlobRequest,
    ReadMultipleRequest,
    ReadByGroupTypeRequest,
    WriteRequest,
    WriteCommand,
    PrepareWriteRequest,
    ExecuteWriteRequest,
    HandleValueConfirmation,
    SignedWriteCommand,
}

/// The opcode of a client PDU
pub open spec fn spec_client_pdu_raw(name: ClientPduName) -> u8 {
    match name {
        ClientPduName::ExchangeMtuRequest => 0x02,
        ClientPduName::FindInformationRequest => 0x04,
        ClientPduName::FindByTypeValueRequest => 0x06,
        ClientPduName::ReadByTypeRequest => 0x08,
        ClientPduName::ReadRequest => 0x0A,
        ClientPduName::ReadBlobRequest => 0x0C,
        ClientPduName::ReadMultipleRequest => 0x0E,
        ClientPduName::ReadByGroupTypeRequest => 0x10,
        ClientPduName::WriteRequest => 0x12,
        ClientPduName::WriteCommand => 0x52,
        ClientPduName::PrepareWriteRequest => 0x16,
        ClientPduName::ExecuteWriteRequest => 0x18,
        ClientPduName::HandleValueConfirmation => 0x1E,
        ClientPduName::SignedWriteCommand => 0xD2,
    }
}

/// The client PDU with opcode `val`, if there is one
pub open spec fn spec_client_pdu_from_raw(val: u8) -> Option<ClientPduName> {
    if val == 0x02 { Some(ClientPduName::ExchangeMtuRequest) }
    else if val == 0x04 { Some(ClientPduName::FindInformationRequest) }
    else if val == 0x06 { Some(ClientPduName::FindByTypeValueRequest) }
    else if val == 0x08 { Some(ClientPduName::ReadByTypeRequest) }
    else if val == 0x0A { Some(ClientPduName::ReadRequest) }
    else if val == 0x0C { Some(ClientPduName::ReadBlobRequest) }
    else if val == 0x0E { Some(ClientPduName::ReadMultipleRequest) }
    else if val == 0x10 { Some(ClientPduName::ReadByGroupTypeRequest) }
    else if val == 0x12 { Some(ClientPduName::WriteRequest) }
    else if val == 0x52 { Some(ClientPduName::WriteCommand) }
    else if val == 0x16 { Some(ClientPduName::PrepareWriteRequest) }
    else if val == 0x18 { Some(ClientPduName::ExecuteWriteRequest) }
    else if val == 0x1E { Some(ClientPduName::HandleValueConfirmation) }
    else if val == 0xD2 { Some(ClientPduName::SignedWriteCommand) }
    else { None }
}

impl ClientPduName {
    /// The client PDU with opcode `val`, or `Err(())` if no client PDU has that opcode
    pub fn try_from(val: u8) -> (r: Result<ClientPduName, ()>)
        ensures
            r is Ok <==> spec_client_pdu_from_raw(val) is Some,
            r matches Ok(n) ==> spec_client_pdu_from_raw(val) == Some(n),
    {
        match val {
            0x02 => Ok(ClientPduName::ExchangeMtuRequest),
            0x04 => Ok(ClientPduName::FindInformationRequest),
            0x06 => Ok(ClientPduName::FindByTypeValueRequest),
            0x08 => Ok(ClientPduName::ReadByTypeRequest),
            0x0A => Ok(ClientPduName::ReadRequest),
            0x0C => Ok(ClientPduName::ReadBlobRequest),
            0x0E => Ok(ClientPduName::ReadMultipleRequest),
            0x10 => Ok(ClientPduName::ReadByGroupTypeRequest),
            0x12 => Ok(ClientPduName::WriteRequest),
            0x52 => Ok(ClientPduName::WriteCommand),
            0x16 => Ok(ClientPduName::PrepareWriteRequest),
            0x18 => Ok(ClientPduName::ExecuteWriteRequest),
            0x1E => Ok(ClientPduName::HandleValueConfirmation),
            0xD2 => Ok(ClientPduName::SignedWriteCommand),
            _ => Err(()),
        }
    }

    /// The opcode of this PDU
    pub fn into_raw(self) -> (r: u8)
        ensures
            r == spec_client_pdu_raw(self),
    {
        match self {
            ClientPduName::ExchangeMtuRequest => 0x02,
            ClientPduName::FindInformationRequest => 0x04,
            ClientPduName::FindByTypeValueRequest => 0x06,
            ClientPduName::ReadByTypeRequest => 0x08,
            ClientPduName::ReadRequest => 0x0A,
            ClientPduName::ReadBlobRequest => 0x0C,
            ClientPduName::ReadMultipleRequest => 0x0E,
            ClientPduName::ReadByGroupTypeRequest => 0x10,
            ClientPduName::WriteRequest => 0x12,
            ClientPduName::WriteCommand => 0x52,
            ClientPduName::PrepareWriteRequest => 0x16,
            ClientPduName::ExecuteWriteRequest => 0x18,
            ClientPduName::HandleValueConfirmation => 0x1E,
            ClientPduName::SignedWriteCommand => 0xD2,
        }
    }

    /// The opcode of this PDU
    pub fn into_opcode(self) -> (r: super::pdu::PduOpCode)
        ensures
            r@ == spec_client_pdu_raw(self),
    {
        super::pdu::PduOpCode::from_raw(self.into_raw())
    }

    /// The name of this PDU as it reads in the specification
    pub fn name(self) -> (r: &'static str)
        ensures
            r@ == (match self {
                ClientPduName::ExchangeMtuRequest => "Exchange Mtu Request"@,
                ClientPduName::FindInformationRequest => "Find Information Request"@,
                ClientPduName::FindByTypeValueRequest => "Find By Type Value Request"@,
                ClientPduName::ReadByTypeRequest => "Read By Type Request"@,
                ClientPduName::ReadRequest => "Read Request"@,
                ClientPduName::ReadBlobRequest => "Read Blob Request"@,
                ClientPduName::ReadMultipleRequest => "Read Multiple Request"@,
                ClientPduName::ReadByGroupTypeRequest => "Read By Group Type Request"@,
                ClientPduName::WriteRequest => "Write Request"@,
                ClientPduName::WriteCommand => "Write Command"@,
                ClientPduName::PrepareWriteRequest => "Prepare Write Request"@,
                ClientPduName::ExecuteWriteRequest => "Execute Write Request"@,
                ClientPduName::HandleValueConfirmation => "Handle Value Confirmation"@,
                ClientPduName::SignedWriteCommand => "Signed Write Command"@,
            }),
    {
        match self {
            ClientPduName::ExchangeMtuRequest => "Exchange Mtu Request",
            ClientPduName::FindInformationRequest => "Find Information Request",
            ClientPduName::FindByTypeValueRequest => "Find By Type Value Request",
            ClientPduName::ReadByTypeRequest => "Read By Type Request",
            ClientPduName::ReadRequest => "Read Request",
            ClientPduName::ReadBlobRequest => "Read Blob Request",
            ClientPduName::ReadMultipleRequest => "Read Multiple Request",
            ClientPduName::ReadByGroupTypeRequest => "Read By Group Type Request",
            ClientPduName::WriteRequest => "Write Request",
            ClientPduName::WriteCommand => "Write Command",
            ClientPduName::PrepareWriteRequest => "Prepare Write Request",
            ClientPduName::ExecuteWriteRequest => "Execute Write Request",
            ClientPduName::HandleValueConfirmation => "Handle Value Confirmation",
            ClientPduName::SignedWriteCommand => "Signed Write Command",
        }
    }
}

/// Each client PDU is read back from its opcode, and an opcode read as a client PDU is that
/// PDU's opcode.
pub proof fn lemma_client_pdu_raw_roundtrip(name: ClientPduName, val: u8)
    ensures
        spec_client_pdu_from_raw(spec_client_pdu_raw(name)) == Some(name),
        spec_client_pdu_from_raw(val) matches Some(n) ==> spec_client_pdu_raw(n) == val,
{
}

} // verus!

verus! {

use core::marker::PhantomData;
use super::{TransferFormat, TransferFormatError, l2cap_channel_id, ATT_CID, MIN_ATT_MTU_LE};
use super::pdu;
use super::pdu::{Pdu, HandleRange, spec_is_valid_handle_range};
use super::le::le_value;
use super::server::{ServerPduName, spec_is_convertible_from, spec_server_pdu_from_raw};
use crate::gap::{ConnectionChannel, spec_sent_att};
use crate::l2cap::AclData;
use crate::uuid::UUID;

/// The error that the client reports for bytes that are not the response it expects: the
/// error response of the server, an unexpected PDU, or a transfer format error
pub open spec fn spec_response_error(bytes: Seq<u8>, e: super::Error) -> bool {
    if spec_is_convertible_from(ServerPduName::ErrorResponse, bytes) {
        match <Pdu<pdu::ErrorAttributeParameter> as TransferFormat>::parse_spec(bytes) {
            Some(p) => e matches super::Error::Pdu(x) && x@ == p,
            None => e is TransferFormat,
        }
    } else if bytes.len() > 0 && spec_server_pdu_from_raw(bytes[0]) is Some {
        e matches super::Error::UnexpectedPdu(op) && op == bytes[0]
    } else {
        e is TransferFormat
    }
}

/// What the client makes of the bytes that answer a request whose response is `expected`:
/// the parameters of that response, or the error of `spec_response_error`
pub open spec fn spec_response_outcome<P: TransferFormat>(expected: ServerPduName, bytes: Seq<u8>, r: Result<P, super::Error>)
    -> bool
{
    if spec_is_convertible_from(expected, bytes) {
        match <Pdu<P> as TransferFormat>::parse_spec(bytes) {
            Some(p) => r matches Ok(v) && v@ == p.parameters,
            None => r matches Err(e) && e is TransferFormat,
        }
    } else {
        r matches Err(e) && spec_response_error(bytes, e)
    }
}

/// Read the bytes that answer a request whose response is `expected`
pub fn process_raw_data<P: TransferFormat>(expected: ServerPduName, bytes: &[u8]) -> (r: Result<P, super::Error>)
    ensures
        spec_response_outcome(expected, bytes@, r),
{
    if expected.is_convertable_from(bytes) {
        match <Pdu<P> as TransferFormat>::from(bytes) {
            Ok(pdu) => Ok(pdu.into_parameters()),
            Err(e) => Err(super::Error::TransferFormat(e)),
        }
    } else if ServerPduName::ErrorResponse.is_convertable_from(bytes) {
        match <Pdu<pdu::ErrorAttributeParameter> as TransferFormat>::from(bytes) {
            Ok(err_pdu) => Err(super::Error::Pdu(err_pdu)),
            Err(e) => Err(super::Error::TransferFormat(e)),
        }
    } else if bytes.len() == 0 {
        Err(super::Error::TransferFormat(TransferFormatError::from_message("Received an empty PDU")))
    } else {
        match ServerPduName::try_from(bytes[0]) {
            Ok(_) => Err(super::Error::UnexpectedPdu(bytes[0])),
            Err(_) => Err(super::Error::TransferFormat(TransferFormatError::from_message(
                "Received a PDU of an unknown opcode"))),
        }
    }
}

/// The bytes of the request PDU of kind `name` with the parameters `parameters`
pub open spec fn spec_request<P: TransferFormat>(name: ClientPduName, parameters: P::V) -> Seq<u8> {
    <Pdu<P> as TransferFormat>::serialize_spec(pdu::spec_pdu(spec_client_pdu_raw(name), parameters))
}

/// The processor of the response to a request
///
/// `P` is the type of the parameters of the response.
pub struct ResponseProcessor<P> {
    expected_response: ServerPduName,
    response: PhantomData<P>,
}

impl<P: TransferFormat> ResponseProcessor<P> {
    /// A processor of the response `expected_response`
    pub fn new(expected_response: ServerPduName) -> (r: ResponseProcessor<P>)
        ensures
            r.spec_expected_response() == expected_response,
    {
        ResponseProcessor { expected_response, response: PhantomData }
    }

    /// The kind of response this processor reads
    pub closed spec fn spec_expected_response(&self) -> ServerPduName {
        self.expected_response
    }

    /// Process the response
    ///
    /// The input `acl_data` should be the response from the server to the request that
    /// generated this `ResponseProcessor`.
    pub fn process_response(self, acl_data: &AclData) -> (r: Result<P, super::Error>)
        ensures
            acl_data.spec_channel_id().cid != ATT_CID ==> r matches Err(super::Error::IncorrectChannelId),
            acl_data.spec_channel_id().cid == ATT_CID
                ==> spec_response_outcome(self.spec_expected_response(), acl_data.spec_payload(), r),
    {
        if acl_data.get_channel_id().cid == ATT_CID {
            process_raw_data(self.expected_response, acl_data.get_payload())
        } else {
            Err(super::Error::IncorrectChannelId)
        }
    }
}

/// The smaller of two MTUs
fn min_mtu(a: u16, b: u16) -> (r: u16)
    ensures
        r == if a <= b { a } else { b },
{
    if a <= b { a } else { b }
}

/// The MTU of the client that the answer `bytes` to a connection gives, where the client asked
/// for `mtu`: the smaller of `mtu` and that of the server's exchange MTU response, or the
/// minimum MTU where the server does not support the exchange; `None` for any other answer
pub open spec fn spec_connect_mtu(mtu: u16, bytes: Seq<u8>) -> Option<u16> {
    if spec_is_convertible_from(ServerPduName::ExchangeMTUResponse, bytes) {
        let received = le_value(bytes.subrange(1, 3)) as u16;
        Some(if mtu <= received { mtu } else { received })
    } else if spec_is_convertible_from(ServerPduName::ErrorResponse, bytes)
        && pdu::spec_error_from_raw(bytes[4]) == pdu::Error::RequestNotSupported {
        Some(MIN_ATT_MTU_LE)
    } else {
        None
    }
}

/// The processor of the answer to the connection of a client
pub struct ConnectProcessor<'c, C: ConnectionChannel> {
    mtu: u16,
    channel: &'c C,
}

impl<'c, C: ConnectionChannel> ConnectProcessor<'c, C> {
    /// The MTU that the client asks for
    pub closed spec fn spec_mtu(&self) -> u16 {
        self.mtu
    }

    /// The connection of the client
    pub closed spec fn spec_channel(&self) -> C {
        *self.channel
    }

    /// Process the answer of the server: its exchange MTU response, or an error response
    pub fn process_response(self, acl_data: &AclData) -> (r: Result<Client<'c, C>, super::Error>)
        ensures
            acl_data.spec_channel_id().cid != ATT_CID ==> r matches Err(super::Error::IncorrectChannelId),
            acl_data.spec_channel_id().cid == ATT_CID ==> {
                let bytes = acl_data.spec_payload();
                &&& r is Ok <==> spec_connect_mtu(self.spec_mtu(), bytes) is Some
                &&& r matches Ok(c) ==> c.spec_mtu() == spec_connect_mtu(self.spec_mtu(), bytes).unwrap()
                &&& r matches Ok(c) ==> c.spec_channel() == self.spec_channel()
                &&& (spec_is_convertible_from(ServerPduName::ErrorResponse, bytes)
                    && !spec_is_convertible_from(ServerPduName::ExchangeMTUResponse, bytes)
                    && pdu::spec_error_from_raw(bytes[4]) != pdu::Error::RequestNotSupported)
                    ==> (r matches Err(super::Error::TransferFormat(e)) && e.pdu_err == pdu::spec_error_from_raw(bytes[4]))
            },
    {
        if acl_data.get_channel_id().cid != ATT_CID {
            return Err(super::Error::IncorrectChannelId);
        }
        let bytes = acl_data.get_payload();
        if ServerPduName::ExchangeMTUResponse.is_convertable_from(bytes) {
            let received = pdu::u16_of(vstd::slice::slice_subrange(bytes, 1, 3));
            Ok(Client { mtu: min_mtu(self.mtu, received) as usize, channel: self.channel })
        } else if ServerPduName::ErrorResponse.is_convertable_from(bytes) {
            let e = pdu::Error::from_raw(bytes[4]);
            match e {
                pdu::Error::RequestNotSupported => Ok(Client { mtu: MIN_ATT_MTU_LE as usize, channel: self.channel }),
                _ => Err(super::Error::TransferFormat(TransferFormatError::from_pdu_error(e))),
            }
        } else if bytes.len() == 0 {
            Err(super::Error::TransferFormat(TransferFormatError::from_message(
                "Received empty packet for response to 'exchange MTU request'")))
        } else {
            match ServerPduName::try_from(bytes[0]) {
                Ok(_) => Err(super::Error::TransferFormat(TransferFormatError::from_message(
                    "Client received invalid pdu in response to 'exchange MTU request'"))),
                Err(_) => Err(super::Error::TransferFormat(TransferFormatError::from_message(
                    "Received unknown invalid PDU for response to 'exchange MTU request'"))),
            }
        }
    }
}

/// The processor of the response to an exchange MTU request
pub struct ExchangeMtuProcessor {
    mtu: u16,
}

impl ExchangeMtuProcessor {
    /// The MTU that the client asked for
    pub closed spec fn spec_mtu(&self) -> u16 {
        self.mtu
    }

    /// Process the response of the server; the client then uses the smaller of the MTU it
    /// asked for and the MTU of the server
    pub fn process_response<'c, C: ConnectionChannel>(self, client: &mut Client<'c, C>, acl_data: &AclData)
        -> (r: Result<(), super::Error>)
        ensures
            acl_data.spec_channel_id().cid != ATT_CID ==> r matches Err(super::Error::IncorrectChannelId),
            r is Err ==> final(client).spec_mtu() == old(client).spec_mtu(),
            final(client).spec_channel() == old(client).spec_channel(),
            acl_data.spec_channel_id().cid == ATT_CID ==> {
                let bytes = acl_data.spec_payload();
                if spec_is_convertible_from(ServerPduName::ExchangeMTUResponse, bytes) {
                    let received = le_value(bytes.subrange(1, 3)) as u16;
                    &&& r is Ok
                    &&& final(client).spec_mtu() == (if self.spec_mtu() <= received { self.spec_mtu() } else { received })
                } else {
                    r matches Err(e) && spec_response_error(bytes, e)
                }
            },
    {
        if acl_data.get_channel_id().cid != ATT_CID {
            return Err(super::Error::IncorrectChannelId);
        }
        let bytes = acl_data.get_payload();
        proof {
            if spec_is_convertible_from(ServerPduName::ExchangeMTUResponse, bytes@) {
                assert(bytes@.skip(1) =~= bytes@.subrange(1, 3));
            }
        }
        let received: u16 = process_raw_data::<u16>(ServerPduName::ExchangeMTUResponse, bytes)?;
        client.mtu = min_mtu(self.mtu, received) as usize;
        Ok(())
    }
}

/// A client of an attribute server
pub struct Client<'c, C: ConnectionChannel> {
    mtu: usize,
    channel: &'c C,
}

impl<'c, C: ConnectionChannel> Client<'c, C> {
    /// The MTU of the client
    pub closed spec fn spec_mtu(&self) -> usize {
        self.mtu
    }

    /// The connection of the client
    pub closed spec fn spec_channel(&self) -> C {
        *self.channel
    }

    /// Connect a client to an attribute server
    ///
    /// This performs the initial setup between the client and the server required for
    /// establishing the attribute protocol. An optional input is used to determine the maximum
    /// size of each attribute packet. If `maximum_transfer_unit` is `None` then the minimum
    /// MTU is used.
    ///
    /// The bluetooth connection must already be established. The exchange MTU request for the
    /// MTU is sent over `channel`, and the returned processor reads the server's answer.
    pub fn connect(channel: &'c C, maximum_transfer_unit: Option<u16>) -> (r: ConnectProcessor<'c, C>)
        ensures
            r.spec_mtu() == (match maximum_transfer_unit {
                Some(mtu) => mtu,
                None => MIN_ATT_MTU_LE,
            }),
            r.spec_channel() == *channel,
            spec_sent_att(*channel, spec_request::<u16>(ClientPduName::ExchangeMtuRequest, r.spec_mtu())),
    {
        let mtu = match maximum_transfer_unit {
            Some(mtu) => mtu,
            None => MIN_ATT_MTU_LE,
        };
        let acl = AclData::new(TransferFormat::into(&pdu::exchange_mtu_request(mtu)), l2cap_channel_id());
        channel.send(acl);
        assert(channel.spec_sent(acl));
        ConnectProcessor { mtu, channel }
    }

    /// Send a PDU to the server, where it fits in the MTU
    fn send<P: TransferFormat>(&self, pdu: &Pdu<P>) -> (r: Result<(), super::Error>)
        ensures
            r is Ok <==> <Pdu<P> as TransferFormat>::serialize_spec(pdu@).len() <= self.spec_mtu(),
            r matches Err(e) ==> e is MtuExceeded,
            r is Ok ==> spec_sent_att(self.spec_channel(), <Pdu<P> as TransferFormat>::serialize_spec(pdu@)),
    {
        let payload = TransferFormat::into(pdu);
        if payload.len() > self.mtu {
            Err(super::Error::MtuExceeded)
        } else {
            let acl = AclData::new(payload, l2cap_channel_id());
            self.channel.send(acl);
            assert(self.channel.spec_sent(acl));
            Ok(())
        }
    }

    /// Send the exchange MTU request
    ///
    /// The maximum transfer size is part of connecting the client to the server, but to try
    /// to change the mtu, this resends the exchange mtu request PDU to the server.
    pub fn exchange_mtu_request(&self, mtu: u16) -> (r: Result<ExchangeMtuProcessor, super::Error>)
        ensures
            mtu < MIN_ATT_MTU_LE ==> r matches Err(super::Error::TooSmallMtu),
            mtu >= MIN_ATT_MTU_LE ==> (r is Ok <==> 3 <= self.spec_mtu()),
            mtu >= MIN_ATT_MTU_LE ==> (r matches Err(e) ==> e is MtuExceeded),
            r matches Ok(p) ==> p.spec_mtu() == mtu,
            r is Ok ==> spec_sent_att(self.spec_channel(), spec_request::<u16>(ClientPduName::ExchangeMtuRequest, mtu)),
    {
        if mtu < MIN_ATT_MTU_LE {
            Err(super::Error::TooSmallMtu)
        } else {
            proof { super::le::lemma_le_bytes_len(mtu as nat, 2); }
            self.send(&pdu::exchange_mtu_request(mtu))?;
            Ok(ExchangeMtuProcessor { mtu })
        }
    }

    /// Find information request
    pub fn find_information_request(&self, handle_range: HandleRange)
        -> (r: Result<ResponseProcessor<pdu::FormattedHandlesWithType>, super::Error>)
        requires
            spec_is_valid_handle_range(handle_range),
        ensures
            r is Ok <==> 5 <= self.spec_mtu(),
            r matches Err(e) ==> e is MtuExceeded,
            r matches Ok(p) ==> p.spec_expected_response() == ServerPduName::FindInformationResponse,
            r is Ok ==> spec_sent_att(self.spec_channel(), spec_request::<HandleRange>(ClientPduName::FindInformationRequest, handle_range)),
    {
        proof {
            super::le::lemma_le_bytes_len(handle_range.starting_handle as nat, 2);
            super::le::lemma_le_bytes_len(handle_range.ending_handle as nat, 2);
        }
        self.send(&pdu::find_information_request(handle_range))?;
        Ok(ResponseProcessor::new(ServerPduName::FindInformationResponse))
    }

    /// Find by type and value request
    ///
    /// The attribute type, labeled as the input `uuid`, is a 16 bit assigned number type. If
    /// the type cannot be converted into a 16 bit UUID, then this function returns an error.
    pub fn find_by_type_value_request<D: TransferFormat>(&self, handle_range: HandleRange, uuid: UUID, value: D)
        -> (r: Result<ResponseProcessor<pdu::TypeValueRequest<D>>, super::Error>)
        requires
            spec_is_valid_handle_range(handle_range),
        ensures
            crate::uuid::spec_short_u16(uuid@) is None ==> r matches Err(super::Error::Other(_)),
            crate::uuid::spec_short_u16(uuid@) is Some ==> (r is Ok <==> 7 + D::serialize_spec(value@).len() <= self.spec_mtu()),
            crate::uuid::spec_short_u16(uuid@) is Some ==> (r matches Err(e) ==> e is MtuExceeded),
            r matches Ok(p) ==> p.spec_expected_response() == ServerPduName::FindByTypeValueResponse,
            r is Ok ==> spec_sent_att(self.spec_channel(), spec_request::<pdu::TypeValueRequest<D>>(
                ClientPduName::FindByTypeValueRequest, (handle_range, crate::uuid::spec_short_u16(uuid@).unwrap(), value@))),
    {
        match pdu::find_by_type_value_request(handle_range, uuid, value) {
            Ok(pdu) => {
                proof {
                    super::le::lemma_le_bytes_len(handle_range.starting_handle as nat, 2);
                    super::le::lemma_le_bytes_len(handle_range.ending_handle as nat, 2);
                    super::le::lemma_le_bytes_len(crate::uuid::spec_short_u16(uuid@).unwrap() as nat, 2);
                }
                self.send(&pdu)?;
                Ok(ResponseProcessor::new(ServerPduName::FindByTypeValueResponse))
            },
            Err(_) => Err(super::Error::Other("Cannot convert UUID to a 16 bit short version")),
        }
    }

    /// Read by type request
    pub fn read_by_type_request(&self, handle_range: HandleRange, attr_type: UUID)
        -> (r: Result<ResponseProcessor<pdu::TypeRequest>, super::Error>)
        requires
            spec_is_valid_handle_range(handle_range),
        ensures
            r is Ok <==> <Pdu<pdu::TypeRequest> as TransferFormat>::serialize_spec(
                pdu::spec_pdu(spec_client_pdu_raw(ClientPduName::ReadByTypeRequest), (handle_range, attr_type@))).len()
                <= self.spec_mtu(),
            r matches Err(e) ==> e is MtuExceeded,
            r matches Ok(p) ==> p.spec_expected_response() == ServerPduName::ReadByTypeResponse,
            r is Ok ==> spec_sent_att(self.spec_channel(), spec_request::<pdu::TypeRequest>(ClientPduName::ReadByTypeRequest,
                (handle_range, attr_type@))),
    {
        self.send(&pdu::read_by_type_request(handle_range, attr_type))?;
        Ok(ResponseProcessor::new(ServerPduName::ReadByTypeResponse))
    }

    /// Read request
    pub fn read_request<D: TransferFormat>(&self, handle: u16) -> (r: Result<ResponseProcessor<D>, super::Error>)
        requires
            handle != 0,
        ensures
            r is Ok <==> 3 <= self.spec_mtu(),
            r matches Err(e) ==> e is MtuExceeded,
            r matches Ok(p) ==> p.spec_expected_response() == ServerPduName::ReadResponse,
            r is Ok ==> spec_sent_att(self.spec_channel(), spec_request::<u16>(ClientPduName::ReadRequest, handle)),
    {
        proof { super::le::lemma_le_bytes_len(handle as nat, 2); }
        self.send(&pdu::read_request(handle))?;
        Ok(ResponseProcessor::new(ServerPduName::ReadResponse))
    }

    /// Read blob request
    pub fn read_blob_request<D: TransferFormat>(&self, handle: u16, offset: u16) -> (r: Result<ResponseProcessor<D>, super::Error>)
        requires
            handle != 0,
        ensures
            r is Ok <==> 5 <= self.spec_mtu(),
            r matches Err(e) ==> e is MtuExceeded,
            r matches Ok(p) ==> p.spec_expected_response() == ServerPduName::ReadBlobResponse,
            r is Ok ==> spec_sent_att(self.spec_channel(), spec_request::<pdu::BlobRequest>(ClientPduName::ReadBlobRequest,
                pdu::BlobRequest { handle, offset })),
    {
        proof {
            super::le::lemma_le_bytes_len(handle as nat, 2);
            super::le::lemma_le_bytes_len(offset as nat, 2);
        }
        self.send(&pdu::read_blob_request(handle, offset))?;
        Ok(ResponseProcessor::new(ServerPduName::ReadBlobResponse))
    }

    /// Read multiple handles
    ///
    /// If there are fewer than two handles an error is returned.
    pub fn read_multiple_request(&self, handles: Vec<u16>) -> (r: Result<ResponseProcessor<Vec<u8>>, super::Error>)
        requires
            forall|i: int| 0 <= i < handles@.len() ==> handles@[i] != 0,
        ensures
            handles@.len() < 2 ==> r matches Err(super::Error::Other(_)),
            handles@.len() >= 2 ==> (r is Ok <==> <Pdu<Vec<u16>> as TransferFormat>::serialize_spec(
                pdu::spec_pdu(spec_client_pdu_raw(ClientPduName::ReadMultipleRequest), handles@)).len() <= self.spec_mtu()),
            handles@.len() >= 2 ==> (r matches Err(e) ==> e is MtuExceeded),
            r matches Ok(p) ==> p.spec_expected_response() == ServerPduName::ReadMultipleResponse,
            r is Ok ==> spec_sent_att(self.spec_channel(), spec_request::<Vec<u16>>(ClientPduName::ReadMultipleRequest, handles@)),
    {
        match pdu::read_multiple_request(handles) {
            Ok(pdu) => {
                self.send(&pdu)?;
                Ok(ResponseProcessor::new(ServerPduName::ReadMultipleResponse))
            },
            Err(_) => Err(super::Error::Other("A read multiple request needs at least two handles")),
        }
    }

    /// Read by group type request
    pub fn read_by_group_type_request<D: TransferFormat + super::TransferFormatSize + super::IdentityView>(
        &self, handle_range: HandleRange, group_type: UUID)
        -> (r: Result<ResponseProcessor<pdu::ReadGroupTypeResponse<D>>, super::Error>)
        requires
            spec_is_valid_handle_range(handle_range),
        ensures
            r is Ok <==> <Pdu<pdu::TypeRequest> as TransferFormat>::serialize_spec(
                pdu::spec_pdu(spec_client_pdu_raw(ClientPduName::ReadByGroupTypeRequest), (handle_range, group_type@))).len()
                <= self.spec_mtu(),
            r matches Err(e) ==> e is MtuExceeded,
            r matches Ok(p) ==> p.spec_expected_response() == ServerPduName::ReadByGroupTypeResponse,
            r is Ok ==> spec_sent_att(self.spec_channel(), spec_request::<pdu::TypeRequest>(
                ClientPduName::ReadByGroupTypeRequest, (handle_range, group_type@))),
    {
        self.send(&pdu::read_by_group_type_request(handle_range, group_type))?;
        Ok(ResponseProcessor::new(ServerPduName::ReadByGroupTypeResponse))
    }

    /// Request to write data to a handle on the server
    ///
    /// The server sends a response to the write request if the write was made, otherwise an
    /// error PDU.
    pub fn write_request<D: TransferFormat>(&self, handle: u16, data: D) -> (r: Result<ResponseProcessor<()>, super::Error>)
        requires
            handle != 0,
        ensures
            r is Ok <==> 3 + D::serialize_spec(data@).len() <= self.spec_mtu(),
            r matches Err(e) ==> e is MtuExceeded,
            r matches Ok(p) ==> p.spec_expected_response() == ServerPduName::WriteResponse,
            r is Ok ==> spec_sent_att(self.spec_channel(), spec_request::<pdu::HandleWithData<D>>(ClientPduName::WriteRequest,
                (handle, data@))),
    {
        proof { super::le::lemma_le_bytes_len(handle as nat, 2); }
        self.send(&pdu::write_request(handle, data))?;
        Ok(ResponseProcessor::new(ServerPduName::WriteResponse))
    }

    /// Command the server to write data to a handle
    ///
    /// No response or error is sent by the server for this command. This client will not know
    /// if the write was successful on the server.
    pub fn write_command<D: TransferFormat>(&self, handle: u16, data: D) -> (r: Result<(), super::Error>)
        requires
            handle != 0,
        ensures
            r is Ok <==> 3 + D::serialize_spec(data@).len() <= self.spec_mtu(),
            r matches Err(e) ==> e is MtuExceeded,
            r is Ok ==> spec_sent_att(self.spec_channel(), spec_request::<pdu::HandleWithData<D>>(ClientPduName::WriteCommand,
                (handle, data@))),
    {
        proof { super::le::lemma_le_bytes_len(handle as nat, 2); }
        self.send(&pdu::write_command(handle, data))
    }

    /// Prepare write request
    pub fn prepare_write_request<D: TransferFormat>(&self, handle: u16, offset: u16, data: D)
        -> (r: Result<ResponseProcessor<pdu::PrepareWriteRequest<D>>, super::Error>)
        requires
            handle != 0,
        ensures
            r is Ok <==> <Pdu<pdu::PrepareWriteRequest<D>> as TransferFormat>::serialize_spec(
                pdu::spec_pdu(spec_client_pdu_raw(ClientPduName::PrepareWriteRequest), (handle, offset, data@))).len()
                <= self.spec_mtu(),
            r matches Err(e) ==> e is MtuExceeded,
            r matches Ok(p) ==> p.spec_expected_response() == ServerPduName::PrepareWriteResponse,
            r is Ok ==> spec_sent_att(self.spec_channel(), spec_request::<pdu::PrepareWriteRequest<D>>(
                ClientPduName::PrepareWriteRequest, (handle, offset, data@))),
    {
        self.send(&pdu::prepare_write_request(handle, offset, data))?;
        Ok(ResponseProcessor::new(ServerPduName::PrepareWriteResponse))
    }

    /// Execute write request
    pub fn execute_write_request(&self, execute: bool) -> (r: Result<ResponseProcessor<u8>, super::Error>)
        ensures
            r is Ok <==> 2 <= self.spec_mtu(),
            r matches Err(e) ==> e is MtuExceeded,
            r matches Ok(p) ==> p.spec_expected_response() == ServerPduName::ExecuteWriteResponse,
            r is Ok ==> spec_sent_att(self.spec_channel(), spec_request::<u8>(ClientPduName::ExecuteWriteRequest,
                if execute { 1u8 } else { 0u8 })),
    {
        proof { super::le::lemma_le_bytes_len(if execute { 1nat } else { 0nat }, 1); }
        self.send(&pdu::execute_write_request(execute))?;
        Ok(ResponseProcessor::new(ServerPduName::ExecuteWriteResponse))
    }

    /// Send a custom command to the server
    ///
    /// This can be used by higher layer protocols to send a command to the server that is not
    /// implemented at the ATT protocol level. However, if the provided pdu contains an opcode
    /// already used by the ATT protocol, then an error is returned.
    pub fn custom_command<D: TransferFormat>(&self, pdu: Pdu<D>) -> (r: Result<(), super::Error>)
        ensures
            ({
                let op = pdu@.opcode;
                let used = spec_client_pdu_from_raw(op) is Some || spec_server_pdu_from_raw(op) is Some;
                &&& used ==> (r matches Err(super::Error::AttUsedOpcode(o)) && o == op)
                &&& !used ==> (r is Ok <==> <Pdu<D> as TransferFormat>::serialize_spec(pdu@).len() <= self.spec_mtu())
                &&& !used ==> (r matches Err(e) ==> e is MtuExceeded)
                &&& r is Ok ==> spec_sent_att(self.spec_channel(), <Pdu<D> as TransferFormat>::serialize_spec(pdu@))
            }),
    {
        let op = pdu.get_opcode().into_raw();
        if ClientPduName::try_from(op).is_err() && ServerPduName::try_from(op).is_err() {
            let data = TransferFormat::into(&pdu);
            if data.len() <= self.mtu {
                let acl = AclData::new(data, l2cap_channel_id());
                self.channel.send(acl);
                assert(self.channel.spec_sent(acl));
                Ok(())
            } else {
                Err(super::Error::MtuExceeded)
            }
        } else {
            Err(super::Error::AttUsedOpcode(op))
        }
    }
}

} // verus!
