//! The server side of the Attribute Protocol
use vstd::prelude::*;

pub mod response;

verus! {

/// The PDUs that a server sends to a client
#[derive(Debug, Clone, Copy, PartialEq, Eq, Structural)]
pub enum ServerPduName {
    ErrorResponse,
    ExchangeMTUResponse,
    FindInformationResponse,
    FindByTypeValueResponse,
    ReadByTypeResponse,
    ReadResponse,
    ReadBlobResponse,
    ReadMultipleResponse,
    ReadByGroupTypeResponse,
    WriteResponse,
    PrepareWriteResponse,
    ExecuteWriteResponse,
    HandleValueNotification,
    HandleValueIndication,
}

/// The opcode of a server PDU
pub open spec fn spec_server_pdu_raw(name: ServerPduName) -> u8 {
    match name {
        ServerPduName::ErrorResponse => 0x1,
        ServerPduName::ExchangeMTUResponse => 0x3,
        ServerPduName::FindInformationResponse => 0x5,
        ServerPduName::FindByTypeValueResponse => 0x7,
        ServerPduName::ReadByTypeResponse => 0x9,
        ServerPduName::ReadResponse => 0xB,
        ServerPduName::ReadBlobResponse => 0xD,
        ServerPduName::ReadMultipleResponse => 0xF,
        ServerPduName::ReadByGroupTypeResponse => 0x11,
        ServerPduName::WriteResponse => 0x13,
        ServerPduName::PrepareWriteResponse => 0x17,
        ServerPduName::ExecuteWriteResponse => 0x19,
        ServerPduName::HandleValueNotification => 0x1B,
        ServerPduName::HandleValueIndication => 0x1D,
    }
}

/// The server PDU with opcode `val`, if there is one
pub open spec fn spec_server_pdu_from_raw(val: u8) -> Option<ServerPduName> {
    if val == 0x1 { Some(ServerPduName::ErrorResponse) }
    else if val == 0x3 { Some(ServerPduName::ExchangeMTUResponse) }
    else if val == 0x5 { Some(ServerPduName::FindInformationResponse) }
    else if val == 0x7 { Some(ServerPduName::FindByTypeValueResponse) }
    else if val == 0x9 { Some(ServerPduName::ReadByTypeResponse) }
    else if val == 0xB { Some(ServerPduName::ReadResponse) }
    else if val == 0xD { Some(ServerPduName::ReadBlobResponse) }
    else if val == 0xF { Some(ServerPduName::ReadMultipleResponse) }
    else if val == 0x11 { Some(ServerPduName::ReadByGroupTypeResponse) }
    else if val == 0x13 { Some(ServerPduName::WriteResponse) }
    else if val == 0x17 { Some(ServerPduName::PrepareWriteResponse) }
    else if val == 0x19 { Some(ServerPduName::ExecuteWriteResponse) }
    else if val == 0x1B { Some(ServerPduName::HandleValueNotification) }
    else if val == 0x1D { Some(ServerPduName::HandleValueIndication) }
    else { None }
}

/// Whether the raw PDU has the opcode of `name` and a length that the PDU can have
pub open spec fn spec_is_convertible_from(name: ServerPduName, raw: Seq<u8>) -> bool {
    let len_ok = match name {
        ServerPduName::ErrorResponse => raw.len() == 5,
        ServerPduName::ExchangeMTUResponse => raw.len() == 3,
        ServerPduName::FindInformationResponse => raw.len() >= 6,
        ServerPduName::FindByTypeValueResponse => raw.len() >= 5,
        ServerPduName::ReadByTypeResponse => raw.len() >= 4,
        ServerPduName::ReadResponse => raw.len() >= 1,
        ServerPduName::ReadBlobResponse => raw.len() >= 1,
        ServerPduName::ReadMultipleResponse => raw.len() >= 1,
        ServerPduName::ReadByGroupTypeResponse => raw.len() >= 6,
        ServerPduName::WriteResponse => raw.len() == 1,
        ServerPduName::PrepareWriteResponse => raw.len() >= 5,
        ServerPduName::ExecuteWriteResponse => raw.len() == 1,
        ServerPduName::HandleValueNotification => raw.len() >= 3,
        ServerPduName::HandleValueIndication => raw.len() >= 3,
    };
    len_ok && raw[0] == spec_server_pdu_raw(name)
}

impl ServerPduName {
    /// The server PDU with opcode `val`, or `Err(())` if no server PDU has that opcode
    pub fn try_from(val: u8) -> (r: Result<ServerPduName, ()>)
        ensures
            r is Ok <==> spec_server_pdu_from_raw(val) is Some,
            r matches Ok(n) ==> spec_server_pdu_from_raw(val) == Some(n),
    {
        match val {
            0x1 => Ok(ServerPduName::ErrorResponse),
            0x3 => Ok(ServerPduName::ExchangeMTUResponse),
            0x5 => Ok(ServerPduName::FindInformationResponse),
            0x7 => Ok(ServerPduName::FindByTypeValueResponse),
            0x9 => Ok(ServerPduName::ReadByTypeResponse),
            0xB => Ok(ServerPduName::ReadResponse),
            0xD => Ok(ServerPduName::ReadBlobResponse),
            0xF => Ok(ServerPduName::ReadMultipleResponse),
            0x11 => Ok(ServerPduName::ReadByGroupTypeResponse),
            0x13 => Ok(ServerPduName::WriteResponse),
            0x17 => Ok(ServerPduName::PrepareWriteResponse),
            0x19 => Ok(ServerPduName::ExecuteWriteResponse),
            0x1B => Ok(ServerPduName::HandleValueNotification),
            0x1D => Ok(ServerPduName::HandleValueIndication),
            _ => Err(()),
        }
    }

    /// The server PDU of an opcode, or `Err(())` if no server PDU has that opcode
    pub fn try_from_opcode(opcode: super::pdu::PduOpCode) -> (r: Result<ServerPduName, ()>)
        ensures
            r is Ok <==> spec_server_pdu_from_raw(opcode@) is Some,
            r matches Ok(n) ==> spec_server_pdu_from_raw(opcode@) == Some(n),
    {
        Self::try_from(opcode.into_raw())
    }

    /// The opcode of this PDU
    pub fn into_raw(self) -> (r: u8)
        ensures
            r == spec_server_pdu_raw(self),
    {
        match self {
            ServerPduName::ErrorResponse => 0x1,
            ServerPduName::ExchangeMTUResponse => 0x3,
            ServerPduName::FindInformationResponse => 0x5,
            ServerPduName::FindByTypeValueResponse => 0x7,
            ServerPduName::ReadByTypeResponse => 0x9,
            ServerPduName::ReadResponse => 0xB,
            ServerPduName::ReadBlobResponse => 0xD,
            ServerPduName::ReadMultipleResponse => 0xF,
            ServerPduName::ReadByGroupTypeResponse => 0x11,
            ServerPduName::WriteResponse => 0x13,
            ServerPduName::PrepareWriteResponse => 0x17,
            ServerPduName::ExecuteWriteResponse => 0x19,
            ServerPduName::HandleValueNotification => 0x1B,
            ServerPduName::HandleValueIndication => 0x1D,
        }
    }

    /// The opcode of this PDU
    pub fn into_opcode(self) -> (r: super::pdu::PduOpCode)
        ensures
            r@ == spec_server_pdu_raw(self),
    {
        super::pdu::PduOpCode::from_raw(self.into_raw())
    }

    /// The name of this PDU as it reads in the specification
    pub fn name(self) -> (r: &'static str)
        ensures
            r@ == (match self {
                ServerPduName::ErrorResponse => "Error Response"@,
                ServerPduName::ExchangeMTUResponse => "Exchange MTU Response"@,
                ServerPduName::FindInformationResponse => "Find Information Response"@,
                ServerPduName::FindByTypeValueResponse => "Find By Type Value Response"@,
                ServerPduName::ReadByTypeResponse => "Read By Type Response"@,
                ServerPduName::ReadResponse => "Read Response"@,
                ServerPduName::ReadBlobResponse => "Read Blob Response"@,
                ServerPduName::ReadMultipleResponse => "Read Multiple Response"@,
                ServerPduName::ReadByGroupTypeResponse => "Read By Group Type Response"@,
                ServerPduName::WriteResponse => "Write Response"@,
                ServerPduName::PrepareWriteResponse => "Prepare Write Response"@,
                ServerPduName::ExecuteWriteResponse => "Execute Write Response"@,
                ServerPduName::HandleValueNotification => "Handle Value Notification"@,
                ServerPduName::HandleValueIndication => "Handle Value Indication"@,
            }),
    {
        match self {
            ServerPduName::ErrorResponse => "Error Response",
            ServerPduName::ExchangeMTUResponse => "Exchange MTU Response",
            ServerPduName::FindInformationResponse => "Find Information Response",
            ServerPduName::FindByTypeValueResponse => "Find By Type Value Response",
            ServerPduName::ReadByTypeResponse => "Read By Type Response",
            ServerPduName::ReadResponse => "Read Response",
            ServerPduName::ReadBlobResponse => "Read Blob Response",
            ServerPduName::ReadMultipleResponse => "Read Multiple Response",
            ServerPduName::ReadByGroupTypeResponse => "Read By Group Type Response",
            ServerPduName::WriteResponse => "Write Response",
            ServerPduName::PrepareWriteResponse => "Prepare Write Response",
            ServerPduName::ExecuteWriteResponse => "Execute Write Response",
            ServerPduName::HandleValueNotification => "Handle Value Notification",
            ServerPduName::HandleValueIndication => "Handle Value Indication",
        }
    }

    /// Check that the given raw pdu is this response pdu
    ///
    /// This will loosely check that the size of the pdu is correct and that the opcode value
    /// matches this response. The size of the packet will only be checked for the minimum
    /// possible size and not the maximum allowable size by the connection's ATT_MTU.
    pub fn is_convertable_from(&self, raw_pdu: &[u8]) -> (r: bool)
        ensures
            r == spec_is_convertible_from(*self, raw_pdu@),
    {
        let len = raw_pdu.len();
        let len_ok = match self {
            ServerPduName::ErrorResponse => len == 5,
            ServerPduName::ExchangeMTUResponse => len == 3,
            ServerPduName::FindInformationResponse => len >= 6,
            ServerPduName::FindByTypeValueResponse => len >= 5,
            ServerPduName::ReadByTypeResponse => len >= 4,
            ServerPduName::ReadResponse => len >= 1,
            ServerPduName::ReadBlobResponse => len >= 1,
            ServerPduName::ReadMultipleResponse => len >= 1,
            ServerPduName::ReadByGroupTypeResponse => len >= 6,
            ServerPduName::WriteResponse => len == 1,
            ServerPduName::PrepareWriteResponse => len >= 5,
            ServerPduName::ExecuteWriteResponse => len == 1,
            ServerPduName::HandleValueNotification => len >= 3,
            ServerPduName::HandleValueIndication => len >= 3,
        };
        len_ok && raw_pdu[0] == self.into_raw()
    }
}

/// Each server PDU is read back from its opcode, and an opcode read as a server PDU is that
/// PDU's opcode.
pub proof fn lemma_server_pdu_raw_roundtrip(name: ServerPduName, val: u8)
    ensures
        spec_server_pdu_from_raw(spec_server_pdu_raw(name)) == Some(name),
        spec_server_pdu_from_raw(val) matches Some(n) ==> spec_server_pdu_raw(n) == val,
{
}

/// No opcode belongs to both a client PDU and a server PDU
pub proof fn lemma_client_server_opcodes_disjoint(val: u8)
    ensures
        !(spec_server_pdu_from_raw(val) is Some && super::client::spec_client_pdu_from_raw(val) is Some),
{
}

} // verus!

verus! {

use super::{Attribute, AttributeView, AttributePermissions, AttributeRestriction,
    TransferFormat, spec_reserved_attribute, spec_kind_accepts, spec_kind_canonical};
use super::pdu;
use super::pdu::concat;
use super::le::le_bytes;
use super::client::{ClientPduName, spec_client_pdu_raw, spec_client_pdu_from_raw};
use crate::gap::{ConnectionChannel, MIN_ATT_MTU_LE, spec_sent_att};
use crate::l2cap::AclData;
use response::{spec_write_handle, spec_error_pdu, spec_exchange_mtu_response, spec_read_response, spec_write,
    spec_find_information_response, spec_find_by_type_value_response, spec_read_by_type_responses, spec_byte_vecs};

/// The view of a server
pub struct ServerView {
    /// The largest MTU that the server accepts
    pub max_mtu: u16,
    /// The MTU agreed on with the client, if any
    pub set_mtu: Option<u16>,
    /// The default MTU of the connection
    pub default_mtu: u16,
    /// The attributes, the attribute at index `i` has handle `i`
    pub attributes: Seq<AttributeView>,
    /// The permissions the client currently has
    pub given_permissions: Seq<AttributePermissions>,
}

/// The views of the attributes
pub open spec fn spec_attribute_views(attributes: Seq<Attribute>) -> Seq<AttributeView> {
    attributes.map_values(|a: Attribute| a@)
}

/// The MTU in use: the agreed MTU, or the default MTU of the connection
pub open spec fn spec_mtu(v: ServerView) -> u16 {
    match v.set_mtu {
        Some(m) => m,
        None => v.default_mtu,
    }
}

/// The attributes of a server: the reserved attribute at handle 0, every other attribute with
/// its index as handle, no more than there are handles
pub open spec fn spec_attributes_wf(attributes: Seq<AttributeView>) -> bool {
    &&& 1 <= attributes.len() <= 0x1_0000
    &&& attributes[0] == spec_reserved_attribute()
    &&& forall|i: int| 0 <= i < attributes.len() ==> (#[trigger] attributes[i]).handle == Some(i as u16)
}

/// The invariant of a server
pub open spec fn spec_server_wf(v: ServerView) -> bool {
    &&& spec_attributes_wf(v.attributes)
    &&& v.default_mtu >= MIN_ATT_MTU_LE
    &&& v.default_mtu <= v.max_mtu
    &&& (v.set_mtu matches Some(m) ==> v.default_mtu <= m <= v.max_mtu)
}

/// The constructor of attributes on an Attribute Server
///
/// `ServerAttributes` constructs a list of attributes.
pub struct ServerAttributes {
    attributes: Vec<Attribute>,
}

impl View for ServerAttributes {
    type V = Seq<AttributeView>;

    closed spec fn view(&self) -> Seq<AttributeView> {
        spec_attribute_views(self.attributes@)
    }
}

impl ServerAttributes {
    #[verifier::type_invariant]
    closed spec fn inv(self) -> bool {
        spec_attributes_wf(self@)
    }

    /// Create a new `ServerAttributes` holding only the reserved handle 0
    pub fn new() -> (r: ServerAttributes)
        ensures
            r@ == seq![spec_reserved_attribute()],
    {
        let mut attributes: Vec<Attribute> = Vec::new();
        attributes.push(Attribute::reserved());
        let r = ServerAttributes { attributes };
        assert(r@ =~= seq![spec_reserved_attribute()]);
        r
    }

    /// The attributes
    pub fn attributes(&self) -> (r: &[Attribute])
        ensures
            spec_attribute_views(r@) == self@,
            spec_attributes_wf(self@),
    {
        proof { use_type_invariant(self); }
        self.attributes.as_slice()
    }

    /// Push an attribute to `ServerAttributes`
    ///
    /// This will push the attribute onto the list of server attributes and return the handle
    /// of the pushed attribute.
    pub fn push(&mut self, attribute: Attribute) -> (r: u16)
        requires
            old(self)@.len() <= 0xFFFF,
        ensures
            r == old(self)@.len(),
            final(self)@ == old(self)@.push(AttributeView { handle: Some(r), ..attribute@ }),
    {
        proof { use_type_invariant(&*self); }
        let ret = self.attributes.len() as u16;
        let mut attribute = attribute;
        attribute.set_handle(ret);
        let ghost old_view = self@;
        let mut attributes: Vec<Attribute> = Vec::new();
        attributes.push(Attribute::reserved());
        proof { assert(spec_attribute_views(attributes@) =~= seq![spec_reserved_attribute()]); }
        core::mem::swap(&mut attributes, &mut self.attributes);
        attributes.push(attribute);
        assert(spec_attribute_views(attributes@) =~= old_view.push(AttributeView { handle: Some(ret), ..attribute@ }));
        self.attributes = attributes;
        ret
    }

    /// The next available handle
    ///
    /// This is the handle that is assigned to the next attribute to be pushed to the
    /// `ServerAttributes`.
    pub fn next_handle(&self) -> (r: u16)
        ensures
            r == self@.len() as u16,
    {
        self.attributes.len() as u16
    }

    /// The attributes, taken out
    pub fn into_attributes(self) -> (r: Vec<Attribute>)
        ensures
            spec_attribute_views(r@) == self@,
            spec_attributes_wf(self@),
    {
        proof { use_type_invariant(&self); }
        self.attributes
    }
}

} // verus!

verus! {

/// Whether `p`, a permission that both the attribute and the client must have, is missing from
/// either
pub open spec fn spec_required_offends(p: AttributePermissions, attribute: Seq<AttributePermissions>,
    given: Seq<AttributePermissions>) -> bool
{
    !attribute.contains(p) || !given.contains(p)
}

/// Whether `p`, a permission that the client must have where the attribute has it, is held by
/// the attribute and not by the client
pub open spec fn spec_restricted_offends(p: AttributePermissions, attribute: Seq<AttributePermissions>,
    given: Seq<AttributePermissions>) -> bool
{
    attribute.contains(p) && !given.contains(p)
}

/// The first permission of `required`, from index `i` on, that offends
pub open spec fn spec_first_required_offender(required: Seq<AttributePermissions>, i: nat,
    attribute: Seq<AttributePermissions>, given: Seq<AttributePermissions>) -> Option<AttributePermissions>
    decreases required.len() - i,
{
    if i >= required.len() {
        None
    } else if spec_required_offends(required[i as int], attribute, given) {
        Some(required[i as int])
    } else {
        spec_first_required_offender(required, i + 1, attribute, given)
    }
}

/// The first permission of `restricted`, from index `i` on, that offends
pub open spec fn spec_first_restricted_offender(restricted: Seq<AttributePermissions>, i: nat,
    attribute: Seq<AttributePermissions>, given: Seq<AttributePermissions>) -> Option<AttributePermissions>
    decreases restricted.len() - i,
{
    if i >= restricted.len() {
        None
    } else if spec_restricted_offends(restricted[i as int], attribute, given) {
        Some(restricted[i as int])
    } else {
        spec_first_restricted_offender(restricted, i + 1, attribute, given)
    }
}

/// Whether `p` is an encryption permission for `restriction`
pub open spec fn spec_is_encryption_for(p: AttributePermissions, restriction: AttributeRestriction) -> bool {
    match p {
        AttributePermissions::Encryption(r, _) => r == restriction,
        _ => false,
    }
}

/// The error that reports the offending permission `p` of an attribute with the permissions
/// `attribute`
pub open spec fn spec_permission_error(p: AttributePermissions, attribute: Seq<AttributePermissions>) -> pdu::Error {
    match p {
        AttributePermissions::Read => pdu::Error::ReadNotPermitted,
        AttributePermissions::Write => pdu::Error::WriteNotPermitted,
        AttributePermissions::Encryption(rest, _) =>
            if exists|k: int| 0 <= k < attribute.len() && spec_is_encryption_for(#[trigger] attribute[k], rest) {
                pdu::Error::InsufficientEncryptionKeySize
            } else {
                pdu::Error::InsufficientEncryption
            },
        AttributePermissions::Authentication(_) => pdu::Error::InsufficientAuthentication,
        AttributePermissions::Authorization(_) => pdu::Error::InsufficientAuthorization,
    }
}

/// The result of validating the permissions of an attribute: the error of the first offending
/// permission, the required ones checked before the restricted ones, or `None` where none
/// offends
pub open spec fn spec_validate_permissions(attribute: Seq<AttributePermissions>, given: Seq<AttributePermissions>,
    required: Seq<AttributePermissions>, restricted: Seq<AttributePermissions>) -> Option<pdu::Error>
{
    match spec_first_required_offender(required, 0, attribute, given) {
        Some(p) => Some(spec_permission_error(p, attribute)),
        None => match spec_first_restricted_offender(restricted, 0, attribute, given) {
            Some(p) => Some(spec_permission_error(p, attribute)),
            None => None,
        },
    }
}

/// Whether the error `e` reports the offending permission `p` of an attribute with the
/// permissions `attribute`: a missing read or write permission is not permitted, a missing
/// authentication is insufficient authentication, a missing authorization is insufficient
/// authorization, and a missing encryption is insufficient encryption, or an insufficient key
/// size where the attribute has an encryption permission of the same restriction
pub open spec fn spec_reports(e: pdu::Error, p: AttributePermissions, attribute: Seq<AttributePermissions>) -> bool {
    match p {
        AttributePermissions::Read => e == pdu::Error::ReadNotPermitted,
        AttributePermissions::Write => e == pdu::Error::WriteNotPermitted,
        AttributePermissions::Authentication(_) => e == pdu::Error::InsufficientAuthentication,
        AttributePermissions::Authorization(_) => e == pdu::Error::InsufficientAuthorization,
        AttributePermissions::Encryption(rest, _) => {
            &&& (e == pdu::Error::InsufficientEncryption || e == pdu::Error::InsufficientEncryptionKeySize)
            &&& (e == pdu::Error::InsufficientEncryptionKeySize <==> exists|k: int| 0 <= k < attribute.len()
                && (#[trigger] attribute[k] matches AttributePermissions::Encryption(r, _) && r == rest))
        },
    }
}

/// Whether `p` is the first offending permission: the first required permission that the
/// attribute or the client lacks or, where there is none, the first restricted permission that
/// the attribute has and the client lacks
pub open spec fn spec_is_first_offender(p: AttributePermissions, attribute: Seq<AttributePermissions>,
    given: Seq<AttributePermissions>, required: Seq<AttributePermissions>, restricted: Seq<AttributePermissions>) -> bool
{
    ||| exists|i: int| 0 <= i < required.len() && required[i] == p && spec_required_offends(p, attribute, given)
        && forall|j: int| 0 <= j < i ==> !spec_required_offends(#[trigger] required[j], attribute, given)
    ||| (forall|j: int| 0 <= j < required.len() ==> !spec_required_offends(#[trigger] required[j], attribute, given))
        && exists|i: int| 0 <= i < restricted.len() && restricted[i] == p && spec_restricted_offends(p, attribute, given)
        && forall|j: int| 0 <= j < i ==> !spec_restricted_offends(#[trigger] restricted[j], attribute, given)
}

proof fn lemma_first_required_offender(required: Seq<AttributePermissions>, i: nat,
    attribute: Seq<AttributePermissions>, given: Seq<AttributePermissions>)
    ensures
        spec_first_required_offender(required, i, attribute, given) matches Some(p) ==> exists|k: int| i <= k < required.len()
            && required[k] == p && spec_required_offends(p, attribute, given)
            && forall|j: int| i <= j < k ==> !spec_required_offends(#[trigger] required[j], attribute, given),
        spec_first_required_offender(required, i, attribute, given) is None
            ==> forall|j: int| i <= j < required.len() ==> !spec_required_offends(#[trigger] required[j], attribute, given),
    decreases required.len() - i,
{
    if i < required.len() {
        lemma_first_required_offender(required, i + 1, attribute, given);
        if !spec_required_offends(required[i as int], attribute, given) {
            if let Some(p) = spec_first_required_offender(required, i, attribute, given) {
                let k = choose|k: int| i + 1 <= k < required.len()
                    && required[k] == p && spec_required_offends(p, attribute, given)
                    && forall|j: int| i + 1 <= j < k ==> !spec_required_offends(#[trigger] required[j], attribute, given);
            }
        }
    }
}

proof fn lemma_first_restricted_offender(restricted: Seq<AttributePermissions>, i: nat,
    attribute: Seq<AttributePermissions>, given: Seq<AttributePermissions>)
    ensures
        spec_first_restricted_offender(restricted, i, attribute, given) matches Some(p) ==> exists|k: int| i <= k < restricted.len()
            && restricted[k] == p && spec_restricted_offends(p, attribute, given)
            && forall|j: int| i <= j < k ==> !spec_restricted_offends(#[trigger] restricted[j], attribute, given),
        spec_first_restricted_offender(restricted, i, attribute, given) is None
            ==> forall|j: int| i <= j < restricted.len() ==> !spec_restricted_offends(#[trigger] restricted[j], attribute, given),
    decreases restricted.len() - i,
{
    if i < restricted.len() {
        lemma_first_restricted_offender(restricted, i + 1, attribute, given);
        if !spec_restricted_offends(restricted[i as int], attribute, given) {
            if let Some(p) = spec_first_restricted_offender(restricted, i, attribute, given) {
                let k = choose|k: int| i + 1 <= k < restricted.len()
                    && restricted[k] == p && spec_restricted_offends(p, attribute, given)
                    && forall|j: int| i + 1 <= j < k ==> !spec_restricted_offends(#[trigger] restricted[j], attribute, given);
            }
        }
    }
}

/// Validating the permissions of an attribute finds no error exactly where no permission
/// offends, and otherwise reports the first offending permission by the error named for its
/// kind: an authentication permission by insufficient authentication, an authorization
/// permission by insufficient authorization, and so on.
pub proof fn lemma_validate_reports_first_offender(attribute: Seq<AttributePermissions>, given: Seq<AttributePermissions>,
    required: Seq<AttributePermissions>, restricted: Seq<AttributePermissions>)
    ensures
        spec_validate_permissions(attribute, given, required, restricted) is None <==> {
            &&& forall|j: int| 0 <= j < required.len() ==> !spec_required_offends(#[trigger] required[j], attribute, given)
            &&& forall|j: int| 0 <= j < restricted.len() ==> !spec_restricted_offends(#[trigger] restricted[j], attribute, given)
        },
        spec_validate_permissions(attribute, given, required, restricted) matches Some(e) ==> exists|p: AttributePermissions|
            spec_is_first_offender(p, attribute, given, required, restricted) && #[trigger] spec_reports(e, p, attribute),
{
    lemma_first_required_offender(required, 0, attribute, given);
    lemma_first_restricted_offender(restricted, 0, attribute, given);
    match spec_first_required_offender(required, 0, attribute, given) {
        Some(p) => {
            let k = choose|k: int| 0 <= k < required.len()
                && required[k] == p && spec_required_offends(p, attribute, given)
                && forall|j: int| 0 <= j < k ==> !spec_required_offends(#[trigger] required[j], attribute, given);
            assert(spec_is_first_offender(p, attribute, given, required, restricted));
            lemma_error_reports(p, attribute);
        },
        None => {
            if let Some(p) = spec_first_restricted_offender(restricted, 0, attribute, given) {
                let k = choose|k: int| 0 <= k < restricted.len()
                    && restricted[k] == p && spec_restricted_offends(p, attribute, given)
                    && forall|j: int| 0 <= j < k ==> !spec_restricted_offends(#[trigger] restricted[j], attribute, given);
                assert(spec_is_first_offender(p, attribute, given, required, restricted));
                lemma_error_reports(p, attribute);
            }
        },
    }
}

proof fn lemma_error_reports(p: AttributePermissions, attribute: Seq<AttributePermissions>)
    ensures
        spec_reports(spec_permission_error(p, attribute), p, attribute),
{
    if let AttributePermissions::Encryption(rest, _) = p {
        if exists|k: int| 0 <= k < attribute.len() && (#[trigger] attribute[k] matches AttributePermissions::Encryption(r, _) && r == rest) {
            let k = choose|k: int| 0 <= k < attribute.len() && (#[trigger] attribute[k] matches AttributePermissions::Encryption(r, _) && r == rest);
            assert(spec_is_encryption_for(attribute[k], rest));
        }
        if exists|k: int| 0 <= k < attribute.len() && spec_is_encryption_for(#[trigger] attribute[k], rest) {
            let k = choose|k: int| 0 <= k < attribute.len() && spec_is_encryption_for(#[trigger] attribute[k], rest);
            assert(attribute[k] matches AttributePermissions::Encryption(r, _) && r == rest);
        }
    }
}

/// Whether the permissions hold no permission twice
pub open spec fn spec_no_duplicates(s: Seq<AttributePermissions>) -> bool {
    forall|i: int, j: int| 0 <= i < j < s.len() ==> s[i] != s[j]
}

/// The predicate of the permissions that `revoked` does not hold
pub open spec fn spec_not_in(revoked: Seq<AttributePermissions>) -> spec_fn(AttributePermissions) -> bool {
    |p: AttributePermissions| !revoked.contains(p)
}

/// Whether `s` holds `p`
pub fn permissions_contain(s: &[AttributePermissions], p: AttributePermissions) -> (r: bool)
    ensures
        r == s@.contains(p),
{
    let mut i: usize = 0;
    while i < s.len()
        invariant
            i <= s@.len(),
            forall|j: int| 0 <= j < i ==> s@[j] != p,
        decreases s@.len() - i,
    {
        if s[i] == p {
            assert(s@[i as int] == p);
            return true;
        }
        i += 1;
    }
    false
}

/// Whether an attribute with the permissions `attribute` has an encryption permission for
/// `restriction`
fn has_encryption_for(attribute: &[AttributePermissions], restriction: AttributeRestriction) -> (r: bool)
    ensures
        r == exists|k: int| 0 <= k < attribute@.len() && spec_is_encryption_for(#[trigger] attribute@[k], restriction),
{
    let mut i: usize = 0;
    while i < attribute.len()
        invariant
            i <= attribute@.len(),
            forall|j: int| 0 <= j < i ==> !spec_is_encryption_for(#[trigger] attribute@[j], restriction),
        decreases attribute@.len() - i,
    {
        let hit = match attribute[i] {
            AttributePermissions::Encryption(r, _) => r == restriction,
            _ => false,
        };
        if hit {
            assert(spec_is_encryption_for(attribute@[i as int], restriction));
            return true;
        }
        i += 1;
    }
    false
}

/// The error that reports the offending permission `p`
fn permission_error(p: AttributePermissions, attribute: &[AttributePermissions]) -> (r: pdu::Error)
    ensures
        r == spec_permission_error(p, attribute@),
{
    match p {
        AttributePermissions::Read => pdu::Error::ReadNotPermitted,
        AttributePermissions::Write => pdu::Error::WriteNotPermitted,
        AttributePermissions::Encryption(rest, _) =>
            if has_encryption_for(attribute, rest) {
                pdu::Error::InsufficientEncryptionKeySize
            } else {
                pdu::Error::InsufficientEncryption
            },
        AttributePermissions::Authentication(_) => pdu::Error::InsufficientAuthentication,
        AttributePermissions::Authorization(_) => pdu::Error::InsufficientAuthorization,
    }
}

/// Validate the permissions of an attribute against those given to the client
///
/// There are two types of permissions that are checked for
/// * `required` - permissions that *both* the attribute and client must have
/// * `restricted` - each permission that the client must have if *and only if* the attribute
///   has it.
///
/// The error of the first offending permission is returned, or `None` where no permission
/// offends.
pub fn validate_permissions(attribute: &[AttributePermissions], given: &[AttributePermissions],
    required: &[AttributePermissions], restricted: &[AttributePermissions]) -> (r: Option<pdu::Error>)
    ensures
        r == spec_validate_permissions(attribute@, given@, required@, restricted@),
{
    let mut i: usize = 0;
    while i < required.len()
        invariant
            i <= required@.len(),
            spec_first_required_offender(required@, 0, attribute@, given@)
                == spec_first_required_offender(required@, i as nat, attribute@, given@),
        decreases required@.len() - i,
    {
        let p = required[i];
        if !permissions_contain(attribute, p) || !permissions_contain(given, p) {
            return Some(permission_error(p, attribute));
        }
        i += 1;
    }
    let mut i: usize = 0;
    while i < restricted.len()
        invariant
            i <= restricted@.len(),
            spec_first_required_offender(required@, 0, attribute@, given@) is None,
            spec_first_restricted_offender(restricted@, 0, attribute@, given@)
                == spec_first_restricted_offender(restricted@, i as nat, attribute@, given@),
        decreases restricted@.len() - i,
    {
        let p = restricted[i];
        if permissions_contain(attribute, p) && !permissions_contain(given, p) {
            return Some(permission_error(p, attribute));
        }
        i += 1;
    }
    None
}

} // verus!

verus! {

/// An Attribute server
///
/// For now a server can only handle one client.
pub struct Server<C: ConnectionChannel> {
    /// The maximum mtu that this server can handle. This is also the mtu sent in a MTU
    /// response PDU. This is not the mtu that is decided as the maximum transmit size between
    /// the server and client, that is `set_mtu`: the smaller of this and the client's mtu, but
    /// not less than the default mtu of the connection.
    max_mtu: u16,
    /// The set mtu between the client and server. If this value is ever None, then the
    /// default value as defined in the connection channel will be used.
    set_mtu: Option<u16>,
    connection: C,
    attributes: Vec<Attribute>,
    /// The permissions the client currently has
    given_permissions: Vec<AttributePermissions>,
}

impl<C: ConnectionChannel> View for Server<C> {
    type V = ServerView;

    closed spec fn view(&self) -> ServerView {
        ServerView {
            max_mtu: self.max_mtu,
            set_mtu: self.set_mtu,
            default_mtu: C::spec_default_att_mtu(),
            attributes: spec_attribute_views(self.attributes@),
            given_permissions: self.given_permissions@,
        }
    }
}

impl<C: ConnectionChannel> Server<C> {
    #[verifier::type_invariant]
    closed spec fn inv(self) -> bool {
        &&& spec_server_wf(self@)
        &&& spec_no_duplicates(self@.given_permissions)
    }

    /// Create a new Server
    ///
    /// The maximum transfer unit is set here, it cannot be smaller than the default MTU of the
    /// connection channel. If the provided MTU value is smaller than that default or none is
    /// passed, then the MTU will be set to the default. Without attributes the server holds
    /// only the reserved handle 0.
    pub fn new(connection: C, max_mtu: Option<u16>, server_attributes: Option<ServerAttributes>) -> (r: Server<C>)
        ensures
            r@.max_mtu == (match max_mtu {
                Some(v) => if v >= C::spec_default_att_mtu() { v } else { C::spec_default_att_mtu() },
                None => C::spec_default_att_mtu(),
            }),
            r@.set_mtu is None,
            r@.default_mtu == C::spec_default_att_mtu(),
            r@.attributes == (match server_attributes {
                Some(a) => a@,
                None => seq![spec_reserved_attribute()],
            }),
            r@.given_permissions == Seq::<AttributePermissions>::empty(),
            spec_server_wf(r@),
            r.spec_connection() == connection,
    {
        let default_mtu = C::default_att_mtu();
        let actual_max_mtu = match max_mtu {
            Some(v) => if v >= default_mtu { v } else { default_mtu },
            None => default_mtu,
        };
        let server_attributes = match server_attributes {
            Some(a) => a,
            None => ServerAttributes::new(),
        };
        let attributes = server_attributes.into_attributes();
        Server {
            max_mtu: actual_max_mtu,
            set_mtu: None,
            connection,
            attributes,
            given_permissions: Vec::new(),
        }
    }

    /// The maximum transfer unit of the connection
    ///
    /// This is the mtu agreed upon by the client and server, or the default mtu of the
    /// connection before they agreed on one.
    pub fn get_mtu(&self) -> (r: u16)
        ensures
            r == spec_mtu(self@),
            r >= MIN_ATT_MTU_LE,
            r <= self@.max_mtu,
    {
        proof { use_type_invariant(self); }
        match self.set_mtu {
            Some(mtu) => mtu,
            None => C::default_att_mtu(),
        }
    }

    /// Push an attribute onto the handle stack
    ///
    /// The attribute gets the next handle, which is returned.
    pub fn push(&mut self, attribute: Attribute) -> (r: u16)
        requires
            old(self)@.attributes.len() <= 0xFFFF,
        ensures
            r == old(self)@.attributes.len(),
            final(self)@ == (ServerView {
                attributes: old(self)@.attributes.push(AttributeView { handle: Some(r), ..attribute@ }),
                ..old(self)@
            }),
    {
        proof { use_type_invariant(&*self); }
        let ret = self.attributes.len() as u16;
        let mut attribute = attribute;
        attribute.set_handle(ret);
        let ghost old_view = self@.attributes;
        let mut attributes: Vec<Attribute> = Vec::new();
        attributes.push(Attribute::reserved());
        proof { assert(spec_attribute_views(attributes@) =~= seq![spec_reserved_attribute()]); }
        core::mem::swap(&mut attributes, &mut self.attributes);
        attributes.push(attribute);
        assert(spec_attribute_views(attributes@) =~= old_view.push(AttributeView { handle: Some(ret), ..attribute@ }));
        self.attributes = attributes;
        ret
    }

    /// The next unused handle
    pub fn next_handle(&self) -> (r: u16)
        ensures
            r == self@.attributes.len() as u16,
    {
        self.attributes.len() as u16
    }

    /// Give a permission to the client
    ///
    /// This doesn't check that the client is qualified to receive the permission, it just
    /// adds an indication on the server that the client has it.
    pub fn give_permission_to_client(&mut self, permission: AttributePermissions)
        ensures
            final(self)@ == (ServerView {
                given_permissions: if old(self)@.given_permissions.contains(permission) {
                    old(self)@.given_permissions
                } else {
                    old(self)@.given_permissions.push(permission)
                },
                ..old(self)@
            }),
    {
        proof { use_type_invariant(&*self); }
        if !permissions_contain(self.given_permissions.as_slice(), permission) {
            let ghost old_given = self.given_permissions@;
            let mut given: Vec<AttributePermissions> = Vec::new();
            core::mem::swap(&mut given, &mut self.given_permissions);
            given.push(permission);
            assert forall|i: int, j: int| 0 <= i < j < given@.len() implies given@[i] != given@[j] by {
                if j == old_given.len() {
                    assert(old_given.contains(old_given[i]));
                }
            }
            self.given_permissions = given;
        }
    }

    /// Remove one or more permission given to the client
    ///
    /// This will remove every permission in `permissions` from the client.
    pub fn revoke_permissions_of_client(&mut self, permissions: &[AttributePermissions])
        ensures
            final(self)@ == (ServerView {
                given_permissions: old(self)@.given_permissions.filter(spec_not_in(permissions@)),
                ..old(self)@
            }),
    {
        proof { use_type_invariant(&*self); }
        let ghost pred = spec_not_in(permissions@);
        let ghost old_given = self.given_permissions@;
        let mut kept: Vec<AttributePermissions> = Vec::new();
        let mut i: usize = 0;
        while i < self.given_permissions.len()
            invariant
                i <= old_given.len(),
                pred == spec_not_in(permissions@),
                self.given_permissions@ == old_given,
                spec_no_duplicates(old_given),
                kept@ == old_given.subrange(0, i as int).filter(pred),
                forall|x: AttributePermissions| kept@.contains(x) ==> old_given.subrange(0, i as int).contains(x),
                spec_no_duplicates(kept@),
            decreases old_given.len() - i,
        {
            let p = self.given_permissions[i];
            proof {
                assert(old_given.subrange(0, i + 1).drop_last() =~= old_given.subrange(0, i as int));
                assert(old_given.subrange(0, i + 1).last() == p);
                assert(pred(p) == !permissions@.contains(p));
                reveal(Seq::filter);
                assert(old_given.subrange(0, i + 1).filter(pred) == if pred(p) {
                    old_given.subrange(0, i as int).filter(pred).push(p)
                } else {
                    old_given.subrange(0, i as int).filter(pred)
                });
            }
            let ghost kept_before = kept@;
            if !permissions_contain(permissions, p) {
                proof {
                    assert forall|a: int, b: int| 0 <= a < b < kept@.push(p).len() implies kept@.push(p)[a] != kept@.push(p)[b] by {
                        if b == kept@.len() {
                            assert(kept@.contains(kept@[a]));
                            let k = choose|k: int| 0 <= k < i && old_given.subrange(0, i as int)[k] == kept@[a];
                            assert(old_given[k] == kept@[a]);
                        }
                    }
                }
                kept.push(p);
            }
            proof {
                assert forall|x: AttributePermissions| kept@.contains(x) implies old_given.subrange(0, i + 1).contains(x) by {
                    let k = choose|k: int| 0 <= k < kept@.len() && kept@[k] == x;
                    if k < kept_before.len() {
                        assert(kept_before[k] == x);
                        assert(kept_before.contains(x));
                        let m = choose|m: int| 0 <= m < i && old_given.subrange(0, i as int)[m] == x;
                        assert(old_given.subrange(0, i + 1)[m] == x);
                    } else {
                        assert(old_given.subrange(0, i + 1)[i as int] == x);
                    }
                }
            }
            i += 1;
        }
        proof { assert(old_given.subrange(0, old_given.len() as int) =~= old_given); }
        self.given_permissions = kept;
    }

    /// Check if the client has acceptable permissions for the attribute with the provided
    /// handle
    ///
    /// The `required` input is used to check that both the client and attribute have all
    /// permissions in `required`. The `restricted` input is a list of permissions that the
    /// client must have if (but only if) the attribute has them.
    ///
    /// # Errors
    /// If a permission is not satisfied, this function will return a corresponding error to the
    /// permission
    /// - `Read` -> `ReadNotPermitted`
    /// - `Write` -> `WriteNotPermitted`
    /// - `Encryption`(`restriction`, _) where `restriction` isn't matched ->
    ///   `InsufficientEncryption`
    /// - `Encryption`(`restriction`, `key`) where `restriction` is matched but `key` is not
    ///   matched -> `InsufficientEncryptionKeySize`
    /// - `Authentication` -> `InsufficientAuthentication`
    /// - `Authorization` -> `InsufficientAuthorization`
    ///
    /// If there is no attribute with the handle `handle`, then the error `InvalidHandle` is
    /// returned.
    pub fn check_permission(&self, handle: u16, required: &[AttributePermissions], restricted: &[AttributePermissions])
        -> (r: Result<(), pdu::Error>)
        ensures
            handle >= self@.attributes.len() ==> r == Err::<(), pdu::Error>(pdu::Error::InvalidHandle),
            handle < self@.attributes.len() ==> r == (match spec_validate_permissions(
                self@.attributes[handle as int].permissions, self@.given_permissions, required@, restricted@) {
                Some(e) => Err(e),
                None => Ok(()),
            }),
    {
        if (handle as usize) < self.attributes.len() {
            let attribute = &self.attributes[handle as usize];
            match validate_permissions(attribute.get_permissions(), self.given_permissions.as_slice(), required, restricted) {
                Some(e) => Err(e),
                None => Ok(()),
            }
        } else {
            Err(pdu::Error::InvalidHandle)
        }
    }
}

} // verus!

verus! {

/// The server after an exchange MTU request for `client_mtu`: the MTU is agreed on where it
/// lies between the default MTU of the connection and the largest MTU of the server
pub open spec fn spec_mtu_after_request(v: ServerView, client_mtu: u16) -> ServerView {
    ServerView { set_mtu: Some(spec_agreed_mtu(v, client_mtu)), ..v }
}

/// The MTU that the server and a client that asks for `client_mtu` agree on: the smaller of the
/// client's MTU and the largest MTU of the server, but not less than the default MTU of the
/// connection
pub open spec fn spec_agreed_mtu(v: ServerView, client_mtu: u16) -> u16 {
    let smaller = if client_mtu <= v.max_mtu { client_mtu } else { v.max_mtu };
    if smaller >= v.default_mtu { smaller } else { v.default_mtu }
}

/// The server after it processed the request of kind `pdu_type` whose parameters (the bytes
/// after the opcode) are `payload`, and the PDUs it answers with; `None` where the parameters
/// are not a valid transfer format
pub open spec fn spec_process_request(v: ServerView, pdu_type: ClientPduName, payload: Seq<u8>)
    -> Option<(ServerView, Seq<Seq<u8>>)>
{
    match pdu_type {
        ClientPduName::ExchangeMtuRequest => match <u16 as TransferFormat>::parse_spec(payload) {
            Some(client_mtu) => {
                let next = spec_mtu_after_request(v, client_mtu);
                Some((next, seq![spec_exchange_mtu_response(v.max_mtu)]))
            },
            None => None,
        },
        ClientPduName::WriteRequest => {
            let written = spec_write(v.attributes, payload);
            Some((ServerView { attributes: written.0, ..v }, seq![written.1]))
        },
        ClientPduName::ReadRequest => match <u16 as TransferFormat>::parse_spec(payload) {
            Some(handle) => Some((v, seq![spec_read_response(v.attributes, handle)])),
            None => None,
        },
        ClientPduName::FindInformationRequest => match <pdu::HandleRange as TransferFormat>::parse_spec(payload) {
            Some(range) => Some((v, seq![spec_find_information_response(v.attributes, spec_mtu(v), range)])),
            None => None,
        },
        ClientPduName::FindByTypeValueRequest =>
            Some((v, seq![spec_find_by_type_value_response(v.attributes, spec_mtu(v), payload)])),
        ClientPduName::ReadByTypeRequest => match <pdu::TypeRequest as TransferFormat>::parse_spec(payload) {
            Some(request) => Some((v, spec_read_by_type_responses(v.attributes, v.given_permissions, spec_mtu(v),
                request.0, request.1))),
            None => None,
        },
        other => Some((v, seq![spec_error_pdu(spec_client_pdu_raw(other), 0, pdu::Error::RequestNotSupported)])),
    }
}

/// The result of parsing an ACL packet: an error where it is not on the channel of the
/// Attribute Protocol, where it is empty, or where its first byte is not the opcode of a
/// client PDU; otherwise the kind of the PDU, whose parameters are the bytes after the opcode
pub open spec fn spec_parse_acl_packet(channel: u16, payload: Seq<u8>) -> Result<ClientPduName, super::Error> {
    if channel != super::ATT_CID {
        Err(super::Error::IncorrectChannelId)
    } else if payload.len() == 0 {
        Err(super::Error::Empty)
    } else {
        match spec_client_pdu_from_raw(payload[0]) {
            Some(name) => Ok(name),
            None => Err(super::Error::UnknownOpcode(payload[0])),
        }
    }
}

impl<C: ConnectionChannel> Server<C> {
    /// Process a request and give the PDUs that answer it
    ///
    /// `payload` holds the parameters of the request, the bytes after its opcode. The error is
    /// that of parameters that are not a valid transfer format; the server is then unchanged.
    pub fn answer(&mut self, pdu_type: ClientPduName, payload: &[u8]) -> (r: Result<Vec<Vec<u8>>, super::Error>)
        ensures
            final(self).spec_connection() == old(self).spec_connection(),
            r is Err <==> spec_process_request(old(self)@, pdu_type, payload@) is None,
            r matches Err(e) ==> e is TransferFormat && final(self)@ == old(self)@,
            r matches Ok(pdus) ==> spec_process_request(old(self)@, pdu_type, payload@)
                == Some((final(self)@, spec_byte_vecs(pdus@))),
    {
        proof { use_type_invariant(&*self); }
        match pdu_type {
            ClientPduName::ExchangeMtuRequest => {
                match <u16 as TransferFormat>::from(payload) {
                    Ok(client_mtu) => {
                        let default_mtu = C::default_att_mtu();
                        let smaller = if client_mtu <= self.max_mtu { client_mtu } else { self.max_mtu };
                        self.set_mtu = Some(if smaller >= default_mtu { smaller } else { default_mtu });
                        Ok(response::one_pdu(response::exchange_mtu_response_pdu(self.max_mtu)))
                    },
                    Err(e) => Err(super::Error::TransferFormat(e)),
                }
            },
            ClientPduName::WriteRequest => {
                let ghost old_views = self@.attributes;
                let mut attributes: Vec<Attribute> = Vec::new();
                attributes.push(Attribute::reserved());
                proof { assert(spec_attribute_views(attributes@) =~= seq![spec_reserved_attribute()]); }
                core::mem::swap(&mut attributes, &mut self.attributes);
                let pdu = response::write_request(&mut attributes, payload);
                proof {
                    let written = spec_attribute_views(attributes@);
                    assert(written.len() == old_views.len());
                    assert forall|i: int| 0 <= i < written.len() implies (#[trigger] written[i]).handle == Some(i as u16) by {
                        assert(old_views[i].handle == Some(i as u16));
                    }
                    assert(written[0] == old_views[0]);
                }
                self.attributes = attributes;
                Ok(response::one_pdu(pdu))
            },
            ClientPduName::ReadRequest => {
                match <u16 as TransferFormat>::from(payload) {
                    Ok(handle) => {
                        Ok(response::one_pdu(response::read_response_pdu(self.attributes.as_slice(), handle)))
                    },
                    Err(e) => Err(super::Error::TransferFormat(e)),
                }
            },
            ClientPduName::FindInformationRequest => {
                match <pdu::HandleRange as TransferFormat>::from(payload) {
                    Ok(range) => {
                        let mtu = self.get_mtu();
                        Ok(response::one_pdu(response::find_information_response_pdu(self.attributes.as_slice(), mtu, range)))
                    },
                    Err(e) => Err(super::Error::TransferFormat(e)),
                }
            },
            ClientPduName::FindByTypeValueRequest => {
                let mtu = self.get_mtu();
                Ok(response::one_pdu(response::find_by_type_value_response_pdu(self.attributes.as_slice(), mtu, payload)))
            },
            ClientPduName::ReadByTypeRequest => {
                match <pdu::TypeRequest as TransferFormat>::from(payload) {
                    Ok(request) => {
                        let mtu = self.get_mtu();
                        Ok(response::read_by_type_response_pdus(self.attributes.as_slice(),
                            self.given_permissions.as_slice(), mtu, request.handle_range, request.attr_type))
                    },
                    Err(e) => Err(super::Error::TransferFormat(e)),
                }
            },
            other => {
                Ok(response::one_pdu(response::error_pdu(other.into_raw(), 0, pdu::Error::RequestNotSupported)))
            },
        }
    }

    /// Process a parsed ACL Packet
    ///
    /// This takes the data from the `Ok` result of `parse_acl_packet`, processes the request
    /// and sends the PDUs that answer it to the client. `process_acl_data` is
    /// `parse_acl_packet` followed by this function; this one is useful for higher layer
    /// protocols that need to parse an ACL packet before performing their own calculations on
    /// the data and *then* have the Attribute server process the data.
    pub fn process_parsed_acl_data(&mut self, pdu_type: ClientPduName, payload: &[u8]) -> (r: Result<(), super::Error>)
        ensures
            final(self).spec_connection() == old(self).spec_connection(),
            r is Err <==> spec_process_request(old(self)@, pdu_type, payload@) is None,
            r is Err ==> final(self)@ == old(self)@,
            r is Ok ==> final(self)@ == spec_process_request(old(self)@, pdu_type, payload@).unwrap().0,
            r is Ok ==> forall|i: int| 0 <= i < spec_process_request(old(self)@, pdu_type, payload@).unwrap().1.len()
                ==> spec_sent_att(old(self).spec_connection(),
                    #[trigger] spec_process_request(old(self)@, pdu_type, payload@).unwrap().1[i]),
    {
        let pdus = self.answer(pdu_type, payload)?;
        let ghost sent = spec_byte_vecs(pdus@);
        let mut i: usize = 0;
        while i < pdus.len()
            invariant
                i <= pdus@.len(),
                sent == spec_byte_vecs(pdus@),
                forall|j: int| 0 <= j < i ==> spec_sent_att(self.connection, #[trigger] sent[j]),
            decreases pdus.len() - i,
        {
            let bytes = vstd::slice::slice_to_vec(pdus[i].as_slice());
            let data = AclData::new(bytes, super::l2cap_channel_id());
            self.connection.send(data);
            assert(sent[i as int] == pdus@[i as int]@);
            assert(spec_sent_att(self.connection, sent[i as int]));
            i += 1;
        }
        Ok(())
    }

    /// Parse an ACL Packet
    ///
    /// This checks the following things
    /// * The ACL packet has the channel identifier of the Attribute Protocol
    /// * The payload of the packet is not empty
    /// * The opcode is that of a client PDU
    ///
    /// The kind of the PDU is returned with its parameters, the bytes after the opcode.
    pub fn parse_acl_packet<'a>(&self, acl_packet: &'a AclData) -> (r: Result<(ClientPduName, &'a [u8]), super::Error>)
        ensures
            spec_parse_acl_packet(acl_packet.spec_channel_id().cid, acl_packet.spec_payload()) matches Ok(name)
                ==> r matches Ok(ok) && ok.0 == name && ok.1@ == acl_packet.spec_payload().skip(1),
            spec_parse_acl_packet(acl_packet.spec_channel_id().cid, acl_packet.spec_payload()) matches Err(e)
                ==> r matches Err(re) && re == e,
    {
        if acl_packet.get_channel_id().cid != super::ATT_CID {
            return Err(super::Error::IncorrectChannelId);
        }
        let payload = acl_packet.get_payload();
        if payload.len() == 0 {
            return Err(super::Error::Empty);
        }
        match ClientPduName::try_from(payload[0]) {
            Ok(name) => {
                let parameters = vstd::slice::slice_subrange(payload, 1, payload.len());
                assert(parameters@ =~= payload@.skip(1));
                Ok((name, parameters))
            },
            Err(_) => Err(super::Error::UnknownOpcode(payload[0])),
        }
    }

    /// Process a received ACL Data packet from the Bluetooth Controller
    ///
    /// The packet is assumed to be in the form of an Attribute protocol request packet. This
    /// function will then process the request and send to the client the appropriate response
    /// packet.
    pub fn process_acl_data(&mut self, acl_packet: &AclData) -> (r: Result<(), super::Error>)
        ensures
            final(self).spec_connection() == old(self).spec_connection(),
            ({
                let parsed = spec_parse_acl_packet(acl_packet.spec_channel_id().cid, acl_packet.spec_payload());
                match parsed {
                    Err(e) => r matches Err(re) && re == e && final(self)@ == old(self)@,
                    Ok(name) => match spec_process_request(old(self)@, name, acl_packet.spec_payload().skip(1)) {
                        None => r is Err && final(self)@ == old(self)@,
                        Some(next) => r is Ok && final(self)@ == next.0
                            && forall|i: int| 0 <= i < next.1.len()
                                ==> spec_sent_att(old(self).spec_connection(), #[trigger] next.1[i]),
                    },
                }
            }),
    {
        let (pdu_type, payload) = self.parse_acl_packet(acl_packet)?;
        self.process_parsed_acl_data(pdu_type, payload)
    }

    /// Send out a notification
    ///
    /// The value of the attribute at the given handle is sent out in the notification. If the
    /// handle doesn't exist, then the notification isn't sent and false is returned.
    pub fn send_notification(&self, handle: u16) -> (r: bool)
        ensures
            r == (handle < self@.attributes.len()),
            r ==> spec_sent_att(self.spec_connection(), spec_notification(handle, self@.attributes[handle as int].bytes)),
    {
        if (handle as usize) < self.attributes.len() {
            let pdu = notification_pdu(handle, self.attributes[handle as usize].get_value_bytes());
            let acl = AclData::new(pdu, super::l2cap_channel_id());
            self.connection.send(acl);
            assert(self.connection.spec_sent(acl));
            true
        } else {
            false
        }
    }

    /// Send an invalid handle error for the request with opcode `received_opcode`
    pub fn send_invalid_handle_error(&self, handle: u16, received_opcode: u8)
        ensures
            spec_sent_att(self.spec_connection(), spec_error_pdu(received_opcode, handle, pdu::Error::InvalidHandle)),
    {
        self.send_error(handle, received_opcode, pdu::Error::InvalidHandle);
    }

    /// Send an error response for the request with opcode `received_opcode`
    pub fn send_error(&self, handle: u16, received_opcode: u8, pdu_error: pdu::Error)
        ensures
            spec_sent_att(self.spec_connection(), spec_error_pdu(received_opcode, handle, pdu_error)),
    {
        let data = response::error_pdu(received_opcode, handle, pdu_error);
        let acl = AclData::new(data, super::l2cap_channel_id());
        self.connection.send(acl);
        assert(self.connection.spec_sent(acl));
    }

    /// The connection of the server
    pub closed spec fn spec_connection(&self) -> C {
        self.connection
    }

    /// The connection of the server
    pub fn as_ref(&self) -> (r: &C)
        ensures
            *r == self.spec_connection(),
    {
        &self.connection
    }
}

/// The bytes of a notification of the value `value` of the attribute at `handle`
pub open spec fn spec_notification(handle: u16, value: Seq<u8>) -> Seq<u8> {
    seq![0x1Bu8] + le_bytes(handle as nat, 2) + value
}

/// The bytes of a notification
pub fn notification_pdu(handle: u16, value: Vec<u8>) -> (r: Vec<u8>)
    ensures
        r@ == spec_notification(handle, value@),
{
    let mut head: Vec<u8> = Vec::new();
    head.push(ServerPduName::HandleValueNotification.into_raw());
    let r = concat(concat(head, pdu::u16_bytes(handle)), value);
    assert(r@ =~= spec_notification(handle, value@));
    r
}

} // verus!

verus! {

/// A value written to an attribute is read back: once a write request to the attribute at
/// `handle` is accepted, a read request of that handle answers with the transfer format of
/// the written value. `write` holds the parameters of the write request, the handle and the
/// value.
pub proof fn lemma_write_then_read(v: ServerView, write: Seq<u8>, handle: u16)
    requires
        spec_server_wf(v),
        write.len() >= 2,
        spec_write_handle(write) == handle,
        handle < v.attributes.len(),
        spec_kind_accepts(v.attributes[handle as int].kind, write.skip(2)),
    ensures
        ({
            let written = spec_process_request(v, ClientPduName::WriteRequest, write).unwrap();
            let read = le_bytes(handle as nat, 2);
            &&& written.1 == seq![seq![0x13u8]]
            &&& spec_process_request(written.0, ClientPduName::ReadRequest, read) == Some((written.0,
                seq![seq![0x0Bu8] + spec_kind_canonical(v.attributes[handle as int].kind, write.skip(2))]))
        }),
{
    super::le::lemma_pow256_values();
    super::le::lemma_le_roundtrip(handle as nat, 2);
}

/// After an exchange MTU request the MTU in use is the client's MTU where it lies between the
/// default MTU of the connection and the largest MTU of the server, the largest MTU of the
/// server where the client asks for more, and the default MTU where it asks for less; so it
/// never leaves those bounds.
pub proof fn lemma_exchange_mtu(v: ServerView, client_mtu: u16)
    requires
        spec_server_wf(v),
    ensures
        spec_server_wf(spec_mtu_after_request(v, client_mtu)),
        v.default_mtu <= client_mtu <= v.max_mtu ==> spec_mtu(spec_mtu_after_request(v, client_mtu)) == client_mtu,
        client_mtu > v.max_mtu ==> spec_mtu(spec_mtu_after_request(v, client_mtu)) == v.max_mtu,
        client_mtu < v.default_mtu ==> spec_mtu(spec_mtu_after_request(v, client_mtu)) == v.default_mtu,
        v.default_mtu <= spec_mtu(spec_mtu_after_request(v, client_mtu)) <= v.max_mtu,
{
}

/// A permission given to the client is held by it, along with those it held before.
pub proof fn lemma_give_permission(given: Seq<AttributePermissions>, p: AttributePermissions, q: AttributePermissions)
    ensures
        ({
            let after = if given.contains(p) { given } else { given.push(p) };
            after.contains(q) <==> (given.contains(q) || q == p)
        }),
{
    if !given.contains(p) {
        if given.contains(q) {
            let k = choose|k: int| 0 <= k < given.len() && given[k] == q;
            assert(given.push(p)[k] == q);
        }
        if given.push(p).contains(q) && q != p {
            let k = choose|k: int| 0 <= k < given.push(p).len() && given.push(p)[k] == q;
            assert(given[k] == q);
        }
        assert(given.push(p)[given.len() as int] == p);
    }
}

/// After permissions are revoked the client holds exactly those it held before that were not
/// revoked.
pub proof fn lemma_revoke_permissions(given: Seq<AttributePermissions>, revoked: Seq<AttributePermissions>,
    q: AttributePermissions)
    ensures
        given.filter(spec_not_in(revoked)).contains(q) <==> (given.contains(q) && !revoked.contains(q)),
{
    broadcast use vstd::seq_lib::group_filter_ensures;
    let pred = spec_not_in(revoked);
    if given.filter(pred).contains(q) {
        let k = choose|k: int| 0 <= k < given.filter(pred).len() && given.filter(pred)[k] == q;
        given.lemma_filter_pred(pred, k);
        given.lemma_filter_contains_rev(pred, q);
    }
    if given.contains(q) && !revoked.contains(q) {
        let k = choose|k: int| 0 <= k < given.len() && given[k] == q;
        given.lemma_filter_contains(pred, k);
    }
}

/// Whether `pdu` starts with the opcode of a server PDU
pub open spec fn spec_is_server_pdu(pdu: Seq<u8>) -> bool {
    pdu.len() > 0 && spec_server_pdu_from_raw(pdu[0]) is Some
}

/// Every request that is a valid transfer format is answered with at least one PDU, every
/// answer is a server PDU, and the server stays well formed.
pub proof fn lemma_requests_are_answered(v: ServerView, pdu_type: ClientPduName, payload: Seq<u8>)
    requires
        spec_server_wf(v),
    ensures
        spec_process_request(v, pdu_type, payload) matches Some(next) ==> {
            &&& spec_server_wf(next.0)
            &&& next.1.len() >= 1
            &&& forall|i: int| 0 <= i < next.1.len() ==> spec_is_server_pdu(#[trigger] next.1[i])
        },
{
    match spec_process_request(v, pdu_type, payload) {
        Some(next) => {
            match pdu_type {
                ClientPduName::WriteRequest => {
                    let written = spec_write(v.attributes, payload).0;
                    assert forall|i: int| 0 <= i < written.len() implies (#[trigger] written[i]).handle == Some(i as u16) by {
                        assert(v.attributes[i].handle == Some(i as u16));
                    }
                    assert(written[0] == v.attributes[0]);
                },
                ClientPduName::ExchangeMtuRequest => {},
                _ => {},
            }
            assert forall|i: int| 0 <= i < next.1.len() implies spec_is_server_pdu(#[trigger] next.1[i]) by {

            }
        },
        None => {},
    }
}

} // verus!
