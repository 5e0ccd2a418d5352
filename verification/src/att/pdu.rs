//! Construct ATT Profile defined Attribute Protocol data units (PDUs)
//!
//! *Commands*, *Requests*, *Notifications*, and *Indications*, are all PDUs that can be sent by
//! the client to the server. *Responses*, and *Confirmations* are sent by the server to the client.
use vstd::prelude::*;

verus! {

/// Error when converting a u8 to an [`Error`]
///
/// Not all error values are for the ATT protocol, some are application level, and some are
/// defined elsewhere.
#[derive(Clone, Copy, PartialEq, Eq, Debug, Structural)]
pub enum ErrorConversionError {
    /// Application level error code
    ApplicationError(u8),
    /// Values that are in the "Reserved for future use" range get put here
    Reserved(u8),
    /// Common profile and service error codes that are from the Core Specification Supplement
    CommonErrorCode(u8),
}

/// The ATT Protocol errors
///
/// See the Bluetooth Specification (V. 5.0) volume 3, part F, section 3.4 for more information
/// on the error codes
#[derive(Clone, Copy, PartialEq, Eq, Debug, Structural)]
pub enum Error {
    /// Used to represent 0x0000, this should never be used as an error code
    NoError,
    InvalidHandle,
    ReadNotPermitted,
    WriteNotPermitted,
    InvalidPDU,
    InsufficientAuthentication,
    RequestNotSupported,
    InvalidOffset,
    InsufficientAuthorization,
    PrepareQueueFull,
    AttributeNotFound,
    AttributeNotLong,
    InsufficientEncryptionKeySize,
    InvalidAttributeValueLength,
    UnlikelyError,
    InsufficientEncryption,
    UnsupportedGroupType,
    InsufficientResources,
    /// The rest of the error codes are either reserved for future use, used for higher layer
    /// protocols, or a common error code from the core specification.
    Other(ErrorConversionError),
}

/// The error that the raw error code `val` stands for
pub open spec fn spec_error_from_raw(val: u8) -> Error {
    if val == 0x00 { Error::NoError }
    else if val == 0x01 { Error::InvalidHandle }
    else if val == 0x02 { Error::ReadNotPermitted }
    else if val == 0x03 { Error::WriteNotPermitted }
    else if val == 0x04 { Error::InvalidPDU }
    else if val == 0x05 { Error::InsufficientAuthentication }
    else if val == 0x06 { Error::RequestNotSupported }
    else if val == 0x07 { Error::InvalidOffset }
    else if val == 0x08 { Error::InsufficientAuthorization }
    else if val == 0x09 { Error::PrepareQueueFull }
    else if val == 0x0A { Error::AttributeNotFound }
    else if val == 0x0B { Error::AttributeNotLong }
    else if val == 0x0C { Error::InsufficientEncryptionKeySize }
    else if val == 0x0D { Error::InvalidAttributeValueLength }
    else if val == 0x0E { Error::UnlikelyError }
    else if val == 0x0F { Error::InsufficientEncryption }
    else if val == 0x10 { Error::UnsupportedGroupType }
    else if val == 0x11 { Error::InsufficientResources }
    else if val <= 0x7F { Error::Other(ErrorConversionError::Reserved(val)) }
    else if val <= 0x9F { Error::Other(ErrorConversionError::ApplicationError(val)) }
    else if val <= 0xDF { Error::Other(ErrorConversionError::Reserved(val)) }
    else { Error::Other(ErrorConversionError::CommonErrorCode(val)) }
}

/// The raw error code of `e`
pub open spec fn spec_error_raw(e: Error) -> u8 {
    match e {
        Error::NoError => 0x00,
        Error::InvalidHandle => 0x01,
        Error::ReadNotPermitted => 0x02,
        Error::WriteNotPermitted => 0x03,
        Error::InvalidPDU => 0x04,
        Error::InsufficientAuthentication => 0x05,
        Error::RequestNotSupported => 0x06,
        Error::InvalidOffset => 0x07,
        Error::InsufficientAuthorization => 0x08,
        Error::PrepareQueueFull => 0x09,
        Error::AttributeNotFound => 0x0A,
        Error::AttributeNotLong => 0x0B,
        Error::InsufficientEncryptionKeySize => 0x0C,
        Error::InvalidAttributeValueLength => 0x0D,
        Error::UnlikelyError => 0x0E,
        Error::InsufficientEncryption => 0x0F,
        Error::UnsupportedGroupType => 0x10,
        Error::InsufficientResources => 0x11,
        Error::Other(ErrorConversionError::ApplicationError(v)) => v,
        Error::Other(ErrorConversionError::Reserved(v)) => v,
        Error::Other(ErrorConversionError::CommonErrorCode(v)) => v,
    }
}

/// Whether the code carried by an `Other` error lies in the range of its kind
pub open spec fn spec_error_well_formed(e: Error) -> bool {
    match e {
        Error::Other(ErrorConversionError::Reserved(v)) => (0x12 <= v && v <= 0x7F) || (0xA0 <= v && v <= 0xDF),
        Error::Other(ErrorConversionError::ApplicationError(v)) => 0x80 <= v && v <= 0x9F,
        Error::Other(ErrorConversionError::CommonErrorCode(v)) => 0xE0 <= v,
        _ => true,
    }
}

impl Error {
    /// The error that a raw error code stands for
    pub fn from_raw(val: u8) -> (r: Error)
        ensures
            r == spec_error_from_raw(val),
    {
        match val {
            0x00 => Error::NoError,
            0x01 => Error::InvalidHandle,
            0x02 => Error::ReadNotPermitted,
            0x03 => Error::WriteNotPermitted,
            0x04 => Error::InvalidPDU,
            0x05 => Error::InsufficientAuthentication,
            0x06 => Error::RequestNotSupported,
            0x07 => Error::InvalidOffset,
            0x08 => Error::InsufficientAuthorization,
            0x09 => Error::PrepareQueueFull,
            0x0A => Error::AttributeNotFound,
            0x0B => Error::AttributeNotLong,
            0x0C => Error::InsufficientEncryptionKeySize,
            0x0D => Error::InvalidAttributeValueLength,
            0x0E => Error::UnlikelyError,
            0x0F => Error::InsufficientEncryption,
            0x10 => Error::UnsupportedGroupType,
            0x11 => Error::InsufficientResources,
            0x12..=0x7F => Error::Other(ErrorConversionError::Reserved(val)),
            0x80..=0x9F => Error::Other(ErrorConversionError::ApplicationError(val)),
            0xA0..=0xDF => Error::Other(ErrorConversionError::Reserved(val)),
            _ => Error::Other(ErrorConversionError::CommonErrorCode(val)),
        }
    }

    /// The raw error code of this error
    pub fn get_raw(&self) -> (r: u8)
        ensures
            r == spec_error_raw(*self),
    {
        match self {
            Error::NoError => 0x00,
            Error::InvalidHandle => 0x01,
            Error::ReadNotPermitted => 0x02,
            Error::WriteNotPermitted => 0x03,
            Error::InvalidPDU => 0x04,
            Error::InsufficientAuthentication => 0x05,
            Error::RequestNotSupported => 0x06,
            Error::InvalidOffset => 0x07,
            Error::InsufficientAuthorization => 0x08,
            Error::PrepareQueueFull => 0x09,
            Error::AttributeNotFound => 0x0A,
            Error::AttributeNotLong => 0x0B,
            Error::InsufficientEncryptionKeySize => 0x0C,
            Error::InvalidAttributeValueLength => 0x0D,
            Error::UnlikelyError => 0x0E,
            Error::InsufficientEncryption => 0x0F,
            Error::UnsupportedGroupType => 0x10,
            Error::InsufficientResources => 0x11,
            Error::Other(ErrorConversionError::ApplicationError(v)) => *v,
            Error::Other(ErrorConversionError::Reserved(v)) => *v,
            Error::Other(ErrorConversionError::CommonErrorCode(v)) => *v,
        }
    }
}

/// Every raw error code is given back by the error it stands for, and the error read from a
/// code is always well formed.
pub proof fn lemma_error_raw_roundtrip(val: u8)
    ensures
        spec_error_raw(spec_error_from_raw(val)) == val,
        spec_error_well_formed(spec_error_from_raw(val)),
{
}

/// A well formed error is read back from its raw error code unchanged.
pub proof fn lemma_error_from_raw_roundtrip(e: Error)
    requires
        spec_error_well_formed(e),
    ensures
        spec_error_from_raw(spec_error_raw(e)) == e,
{
}

} // verus!

verus! {

use super::{TransferFormat, TransferFormatSize, TransferFormatError, IdentityView};
use super::le::{le_value, le_bytes, le_encode, le_decode};
use super::client::{ClientPduName, spec_client_pdu_raw};
use super::server::{ServerPduName, spec_server_pdu_raw};
use crate::uuid::{UUID, spec_short_u16, spec_uuid_of_short};

/// The opcode byte of a PDU
#[derive(Clone, Copy, Debug, PartialEq, Eq, Structural)]
pub struct PduOpCode {
    /// A boolean to indicate if there is an authentication signature in the Attribute PDU
    sig: bool,
    /// Command flag
    command: bool,
    /// Method
    method: u8,
}

/// The opcode byte made of the signature flag, the command flag and the method
pub open spec fn spec_opcode_raw(sig: bool, command: bool, method: u8) -> u8 {
    (method & 0x3F) | (if sig { 0x80u8 } else { 0u8 }) | (if command { 0x40u8 } else { 0u8 })
}

impl View for PduOpCode {
    type V = u8;

    closed spec fn view(&self) -> u8 {
        spec_opcode_raw(self.sig, self.command, self.method)
    }
}

/// Whether the authentication signature flag of an opcode is set
pub open spec fn spec_opcode_signed(raw: u8) -> bool {
    raw >= 0x80
}

impl PduOpCode {
    pub fn new() -> (r: PduOpCode)
        ensures
            r@ == 0,
    {
        let r = PduOpCode { sig: false, command: false, method: 0 };
        assert(r@ == 0) by {
            assert((0u8 & 0x3F) | 0u8 | 0u8 == 0u8) by (bit_vector);
        }
        r
    }

    /// The opcode with the raw value `val`
    pub fn from_raw(val: u8) -> (r: PduOpCode)
        ensures
            r@ == val,
    {
        let sig = (val & 0x80) != 0;
        let command = (val & 0x40) != 0;
        let method = val & 0x3F;
        let r = PduOpCode { sig, command, method };
        assert(r@ == val) by {
            assert(((val & 0x3F) & 0x3F) | (if (val & 0x80) != 0 { 0x80u8 } else { 0u8 })
                | (if (val & 0x40) != 0 { 0x40u8 } else { 0u8 }) == val) by (bit_vector);
        }
        r
    }

    /// The raw value of the opcode
    pub fn into_raw(&self) -> (r: u8)
        ensures
            r == self@,
    {
        (self.method & 0x3F) | (if self.sig { 0x80u8 } else { 0u8 }) | (if self.command { 0x40u8 } else { 0u8 })
    }

    /// Whether the PDU carries an authentication signature
    pub fn is_signed(&self) -> (r: bool)
        ensures
            r == spec_opcode_signed(self@),
    {
        let raw = self.into_raw();
        assert(((raw & 0x80) != 0) == (raw >= 0x80)) by (bit_vector);
        (raw & 0x80) != 0
    }
}

/// The view of a PDU: its opcode byte, the view of its parameters, and its signature
pub struct PduView<V> {
    pub opcode: u8,
    pub parameters: V,
    pub signature: Option<()>,
}

/// An Attribute Protocol data unit
pub struct Pdu<P> {
    /// The Attribute Opcode
    opcode: PduOpCode,
    /// The Attribute(s) sent with the Pdu
    parameters: P,
    /// Optional authentication signature, this is not implemented yet
    signature: Option<()>,
}

impl<P: View> View for Pdu<P> {
    type V = PduView<P::V>;

    closed spec fn view(&self) -> PduView<P::V> {
        PduView { opcode: self.opcode@, parameters: self.parameters@, signature: self.signature }
    }
}

impl<P: View> Pdu<P> {
    pub fn new(opcode: PduOpCode, parameters: P, signature: Option<()>) -> (r: Pdu<P>)
        ensures
            r@ == (PduView { opcode: opcode@, parameters: parameters@, signature }),
    {
        Pdu { opcode, parameters, signature }
    }

    pub fn get_opcode(&self) -> (r: PduOpCode)
        ensures
            r@ == self@.opcode,
    {
        self.opcode
    }

    pub fn get_parameters(&self) -> (r: &P)
        ensures
            r@ == self@.parameters,
    {
        &self.parameters
    }

    pub fn get_signature(&self) -> (r: Option<()>)
        ensures
            r == self@.signature,
    {
        self.signature
    }

    pub fn into_parameters(self) -> (r: P)
        ensures
            r@ == self@.parameters,
    {
        self.parameters
    }
}

/// The bytes of the parameters of a raw PDU: all bytes after the opcode, but for the twelve
/// byte signature of a signed PDU. `None` where a signed PDU is too short for its signature.
pub open spec fn spec_pdu_parameter_bytes(raw: Seq<u8>) -> Option<Seq<u8>> {
    if raw.len() == 0 {
        None
    } else if spec_opcode_signed(raw[0]) {
        if raw.len() >= 13 { Some(raw.subrange(1, raw.len() - 12)) } else { None }
    } else {
        Some(raw.skip(1))
    }
}

impl<P: TransferFormat> TransferFormat for Pdu<P> {
    open spec fn parse_spec(raw: Seq<u8>) -> Option<PduView<P::V>> {
        match spec_pdu_parameter_bytes(raw) {
            Some(params) => match P::parse_spec(params) {
                Some(p) => Some(PduView { opcode: raw[0], parameters: p, signature: None }),
                None => None,
            },
            None => None,
        }
    }

    open spec fn serialize_spec(v: PduView<P::V>) -> Seq<u8> {
        seq![v.opcode] + P::serialize_spec(v.parameters)
    }

    fn from(raw: &[u8]) -> (r: Result<Pdu<P>, TransferFormatError>) {
        if raw.len() > 0 {
            let opcode = PduOpCode::from_raw(raw[0]);
            let params = if opcode.is_signed() {
                if raw.len() >= 13 {
                    vstd::slice::slice_subrange(raw, 1, raw.len() - 12)
                } else {
                    return Err(TransferFormatError::from_message("PDU too short for its signature"));
                }
            } else {
                vstd::slice::slice_subrange(raw, 1, raw.len())
            };
            assert(raw@.subrange(1, raw@.len() as int) =~= raw@.skip(1));
            let parameters = P::from(params)?;
            Ok(Pdu { opcode, parameters, signature: None })
        } else {
            Err(TransferFormatError::from_message("Pdu with length of zero received"))
        }
    }

    fn into(&self) -> (r: Vec<u8>) {
        let mut v: Vec<u8> = Vec::new();
        v.push(self.opcode.into_raw());
        let mut params = TransferFormat::into(&self.parameters);
        v.append(&mut params);
        // the signature is not implemented, its transfer format is empty
        v
    }
}

/// Concatenate two byte vectors
pub fn concat(a: Vec<u8>, b: Vec<u8>) -> (r: Vec<u8>)
    ensures
        r@ == a@ + b@,
{
    let mut a = a;
    let mut b = b;
    a.append(&mut b);
    a
}

/// The two little endian bytes of `v`
pub fn u16_bytes(v: u16) -> (r: Vec<u8>)
    ensures
        r@ == le_bytes(v as nat, 2),
        r@.len() == 2,
{
    proof { super::le::lemma_le_bytes_len(v as nat, 2); }
    le_encode(v as u128, 2)
}

/// The value of two little endian bytes
pub fn u16_of(raw: &[u8]) -> (r: u16)
    requires
        raw@.len() == 2,
    ensures
        r == le_value(raw@),
{
    proof {
        super::le::lemma_le_value_bound(raw@);
        super::le::lemma_pow256_values();
    }
    le_decode(raw) as u16
}

/// Attribute Parameters included with the Error PDU
#[derive(Clone, Copy, Debug)]
pub struct ErrorAttributeParameter {
    /// The opcode of the requested
    pub request_opcode: u8,
    /// The attribute handle that generated the error response
    pub requested_handle: u16,
    /// error code
    pub error: Error,
}

impl View for ErrorAttributeParameter {
    type V = ErrorAttributeParameter;

    open spec fn view(&self) -> ErrorAttributeParameter {
        *self
    }
}

impl TransferFormat for ErrorAttributeParameter {
    open spec fn parse_spec(raw: Seq<u8>) -> Option<ErrorAttributeParameter> {
        if raw.len() == 4 {
            Some(ErrorAttributeParameter {
                request_opcode: raw[0],
                requested_handle: le_value(raw.subrange(1, 3)) as u16,
                error: spec_error_from_raw(raw[3]),
            })
        } else {
            None
        }
    }

    open spec fn serialize_spec(v: ErrorAttributeParameter) -> Seq<u8> {
        seq![v.request_opcode] + le_bytes(v.requested_handle as nat, 2) + seq![spec_error_raw(v.error)]
    }

    fn from(raw: &[u8]) -> (r: Result<ErrorAttributeParameter, TransferFormatError>) {
        if raw.len() == 4 {
            Ok(ErrorAttributeParameter {
                request_opcode: raw[0],
                requested_handle: u16_of(vstd::slice::slice_subrange(raw, 1, 3)),
                error: Error::from_raw(raw[3]),
            })
        } else {
            Err(TransferFormatError::bad_size("ErrorAttributeParameter", 4, raw.len()))
        }
    }

    fn into(&self) -> (r: Vec<u8>) {
        let mut v: Vec<u8> = Vec::new();
        v.push(self.request_opcode);
        let mut v = concat(v, u16_bytes(self.requested_handle));
        v.push(self.error.get_raw());
        v
    }
}

} // verus!

verus! {

/// The starting and ending handles when trying to get a range of attribute handles
///
/// Handle 0 is reserved by the ATT Protocol specification, a range starting at 0 is not valid.
#[derive(Clone, Copy, Debug, PartialEq, Eq, Structural)]
pub struct HandleRange {
    pub starting_handle: u16,
    pub ending_handle: u16,
}

impl View for HandleRange {
    type V = HandleRange;

    open spec fn view(&self) -> HandleRange {
        *self
    }
}

/// Whether a handle range starts at a handle other than the reserved handle 0 and does not end
/// before it starts
pub open spec fn spec_is_valid_handle_range(r: HandleRange) -> bool {
    r.starting_handle != 0 && r.starting_handle <= r.ending_handle
}

/// One end of a range of handles
#[derive(Clone, Copy, Debug, PartialEq, Eq, Structural)]
pub enum HandleBound {
    Included(u16),
    Excluded(u16),
    Unbounded,
}

impl HandleRange {
    pub fn new(starting_handle: u16, ending_handle: u16) -> (r: HandleRange)
        ensures
            r == (HandleRange { starting_handle, ending_handle }),
    {
        HandleRange { starting_handle, ending_handle }
    }

    /// Create a HandleRange from the bounds of a range
    ///
    /// If and only if the start of the range is deliberately included zero will the
    /// `starting_handle` be zero. If the start of the range is unbounded, then 1 is used as the
    /// value for the starting handle; an unbounded end is the last handle, 0xFFFF.
    pub fn from_bounds(start: HandleBound, end: HandleBound) -> (r: HandleRange)
        requires
            start != HandleBound::Excluded(0xFFFF),
            end != HandleBound::Excluded(0),
        ensures
            r.starting_handle == match start {
                HandleBound::Included(v) => v as int,
                HandleBound::Excluded(v) => v + 1,
                HandleBound::Unbounded => 1,
            },
            r.ending_handle == match end {
                HandleBound::Included(v) => v as int,
                HandleBound::Excluded(v) => v - 1,
                HandleBound::Unbounded => 0xFFFF,
            },
    {
        let starting_handle = match start {
            HandleBound::Included(v) => v,
            HandleBound::Excluded(v) => v + 1,
            HandleBound::Unbounded => 1,
        };
        let ending_handle = match end {
            HandleBound::Included(v) => v,
            HandleBound::Excluded(v) => v - 1,
            HandleBound::Unbounded => 0xFFFF,
        };
        HandleRange { starting_handle, ending_handle }
    }

    /// Whether the range starts at a handle other than 0 and does not end before it starts
    pub fn is_valid(&self) -> (r: bool)
        ensures
            r == spec_is_valid_handle_range(*self),
    {
        self.starting_handle != 0 && self.starting_handle <= self.ending_handle
    }
}

impl IdentityView for HandleRange {
    proof fn lemma_view_is_identity(&self) {}
}

impl TransferFormat for HandleRange {
    open spec fn parse_spec(raw: Seq<u8>) -> Option<HandleRange> {
        if raw.len() == 4 {
            Some(HandleRange {
                starting_handle: le_value(raw.subrange(0, 2)) as u16,
                ending_handle: le_value(raw.subrange(2, 4)) as u16,
            })
        } else {
            None
        }
    }

    open spec fn serialize_spec(v: HandleRange) -> Seq<u8> {
        le_bytes(v.starting_handle as nat, 2) + le_bytes(v.ending_handle as nat, 2)
    }

    fn from(raw: &[u8]) -> (r: Result<HandleRange, TransferFormatError>) {
        if raw.len() == 4 {
            Ok(HandleRange {
                starting_handle: u16_of(vstd::slice::slice_subrange(raw, 0, 2)),
                ending_handle: u16_of(vstd::slice::slice_subrange(raw, 2, 4)),
            })
        } else {
            Err(TransferFormatError::bad_size("HandleRange", 4, raw.len()))
        }
    }

    fn into(&self) -> (r: Vec<u8>) {
        concat(u16_bytes(self.starting_handle), u16_bytes(self.ending_handle))
    }
}

impl TransferFormatSize for HandleRange {
    open spec fn size_spec() -> nat { 4 }
    fn size() -> (r: usize) { 4 }
}

/// A struct that contains an attribute handle and attribute type
#[derive(Clone, Copy, PartialEq, Eq, Debug)]
pub struct HandleWithType(pub u16, pub UUID);

impl View for HandleWithType {
    type V = (u16, u128);

    open spec fn view(&self) -> (u16, u128) {
        (self.0, self.1@)
    }
}

impl HandleWithType {
    pub fn new(handle: u16, uuid: UUID) -> (r: HandleWithType)
        ensures
            r@ == (handle, uuid@),
    {
        HandleWithType(handle, uuid)
    }
}

/// The handle and type pairs that `raw` stands for; with 16 bit UUIDs if `wide` is false
pub open spec fn spec_parse_handles_with_types(raw: Seq<u8>, wide: bool) -> Option<Seq<(u16, u128)>>
    decreases raw.len(),
{
    let size: int = if wide { 18 } else { 4 };
    if raw.len() == 0 {
        Some(Seq::empty())
    } else if raw.len() < size {
        None
    } else {
        let handle = le_value(raw.subrange(0, 2)) as u16;
        let uuid = if wide {
            le_value(raw.subrange(2, 18)) as u128
        } else {
            spec_uuid_of_short(le_value(raw.subrange(2, 4)) as int) as u128
        };
        match spec_parse_handles_with_types(raw.skip(size), wide) {
            Some(rest) => Some(seq![(handle, uuid)] + rest),
            None => None,
        }
    }
}

/// Whether every type of the pairs has a 16 bit short form
pub open spec fn spec_all_short(s: Seq<(u16, u128)>) -> bool {
    forall|i: int| 0 <= i < s.len() ==> (#[trigger] spec_short_u16(s[i].1)) is Some
}

/// The bytes of the handle and type pairs; with 16 bit UUIDs if `wide` is false
pub open spec fn spec_serialize_handles_with_types(s: Seq<(u16, u128)>, wide: bool) -> Seq<u8>
    decreases s.len(),
{
    if s.len() == 0 {
        Seq::empty()
    } else {
        let (handle, uuid) = s.last();
        spec_serialize_handles_with_types(s.drop_last(), wide) + le_bytes(handle as nat, 2) + (if wide {
            le_bytes(uuid as nat, 16)
        } else {
            le_bytes(spec_short_u16(uuid).unwrap() as nat, 2)
        })
    }
}

/// Formatted handle with type
///
/// This struct, when created, determines if all the UUID's are 16 bit or 128 bit, and is used
/// to create the find information response attribute PDU.
pub struct FormattedHandlesWithType {
    handles_with_uuids: Vec<HandleWithType>,
}

impl View for FormattedHandlesWithType {
    type V = Seq<(u16, u128)>;

    closed spec fn view(&self) -> Seq<(u16, u128)> {
        self.handles_with_uuids@.map_values(|h: HandleWithType| h@)
    }
}

impl FormattedHandlesWithType {
    pub const UUID_16_BIT: u8 = 0x1;
    pub const UUID_128_BIT: u8 = 0x2;

    pub fn new(handles_with_uuids: &[HandleWithType]) -> (r: FormattedHandlesWithType)
        ensures
            r@ == handles_with_uuids@.map_values(|h: HandleWithType| h@),
    {
        FormattedHandlesWithType { handles_with_uuids: vstd::slice::slice_to_vec(handles_with_uuids) }
    }

    /// The handle and type pairs
    pub fn handles_with_types(&self) -> (r: &[HandleWithType])
        ensures
            r@.map_values(|h: HandleWithType| h@) == self@,
    {
        self.handles_with_uuids.as_slice()
    }

    fn parse_pairs(raw: &[u8], wide: bool) -> (r: Option<Vec<HandleWithType>>)
        ensures
            r is Some <==> spec_parse_handles_with_types(raw@, wide) is Some,
            r matches Some(v) ==> spec_parse_handles_with_types(raw@, wide) == Some(v@.map_values(|h: HandleWithType| h@)),
    {
        let size: usize = if wide { 18 } else { 4 };
        let mut v: Vec<HandleWithType> = Vec::new();
        let mut pos: usize = 0;
        assert(raw@.skip(0) =~= raw@);
        assert(v@.map_values(|h: HandleWithType| h@) + Seq::<(u16, u128)>::empty() =~= Seq::<(u16, u128)>::empty());
        while pos < raw.len()
            invariant
                size == (if wide { 18usize } else { 4usize }),
                pos <= raw.len(),
                spec_parse_handles_with_types(raw@, wide) == match spec_parse_handles_with_types(raw@.skip(pos as int), wide) {
                    Some(rest) => Some(v@.map_values(|h: HandleWithType| h@) + rest),
                    None => None::<Seq<(u16, u128)>>,
                },
            decreases raw.len() - pos,
        {
            let ghost rest = raw@.skip(pos as int);
            if raw.len() - pos < size {
                return None;
            }
            let handle = u16_of(vstd::slice::slice_subrange(raw, pos, pos + 2));
            let uuid = if wide {
                UUID::from_u128(le_decode(vstd::slice::slice_subrange(raw, pos + 2, pos + 18)))
            } else {
                UUID::from_u16(u16_of(vstd::slice::slice_subrange(raw, pos + 2, pos + 4)))
            };
            assert(rest.subrange(0, 2) =~= raw@.subrange(pos as int, pos + 2));
            assert(rest.subrange(2, 4) =~= raw@.subrange(pos + 2, pos + 4));
            assert(wide ==> rest.subrange(2, 18) =~= raw@.subrange(pos + 2, pos + 18));
            assert(raw@.skip(pos + size) =~= rest.skip(size as int));
            let ghost old_v = v@.map_values(|h: HandleWithType| h@);
            v.push(HandleWithType(handle, uuid));
            proof {
                assert(v@.map_values(|h: HandleWithType| h@) =~= old_v.push((handle, uuid@)));
                match spec_parse_handles_with_types(rest.skip(size as int), wide) {
                    Some(r) => {
                        assert(old_v + (seq![(handle, uuid@)] + r) =~= v@.map_values(|h: HandleWithType| h@) + r);
                    },
                    None => {},
                }
            }
            pos = pos + size;
        }
        assert(raw@.skip(pos as int) =~= Seq::<u8>::empty());
        assert(v@.map_values(|h: HandleWithType| h@) + Seq::<(u16, u128)>::empty() =~= v@.map_values(|h: HandleWithType| h@));
        Some(v)
    }
}

impl TransferFormat for FormattedHandlesWithType {
    open spec fn parse_spec(raw: Seq<u8>) -> Option<Seq<(u16, u128)>> {
        if raw.len() == 0 {
            None
        } else if raw[0] == 1 {
            spec_parse_handles_with_types(raw.skip(1), false)
        } else if raw[0] == 2 {
            spec_parse_handles_with_types(raw.skip(1), true)
        } else {
            None
        }
    }

    open spec fn serialize_spec(v: Seq<(u16, u128)>) -> Seq<u8> {
        if spec_all_short(v) {
            seq![1u8] + spec_serialize_handles_with_types(v, false)
        } else {
            seq![2u8] + spec_serialize_handles_with_types(v, true)
        }
    }

    fn from(raw: &[u8]) -> (r: Result<FormattedHandlesWithType, TransferFormatError>) {
        if raw.len() == 0 {
            return Err(TransferFormatError::from_message("Empty FormattedHandlesWithType"));
        }
        let rest = vstd::slice::slice_subrange(raw, 1, raw.len());
        assert(rest@ =~= raw@.skip(1));
        if raw[0] == Self::UUID_16_BIT {
            match Self::parse_pairs(rest, false) {
                Some(v) => Ok(FormattedHandlesWithType { handles_with_uuids: v }),
                None => Err(TransferFormatError::bad_exact_chunks("FormattedHandlesWithType", 4, rest.len())),
            }
        } else if raw[0] == Self::UUID_128_BIT {
            match Self::parse_pairs(rest, true) {
                Some(v) => Ok(FormattedHandlesWithType { handles_with_uuids: v }),
                None => Err(TransferFormatError::bad_exact_chunks("FormattedHandlesWithType", 18, rest.len())),
            }
        } else {
            Err(TransferFormatError::from_message("Invalid Type for FormattedHandlesWithType"))
        }
    }

    fn into(&self) -> (r: Vec<u8>) {
        let ghost s = self@;
        let n = self.handles_with_uuids.len();
        // Can every type be sent as a 16 bit UUID?
        let mut all_short = true;
        let mut i: usize = 0;
        while i < n
            invariant
                i <= n,
                n == self.handles_with_uuids@.len(),
                s == self.handles_with_uuids@.map_values(|h: HandleWithType| h@),
                all_short == (forall|k: int| 0 <= k < i ==> (#[trigger] spec_short_u16(s[k].1)) is Some),
            decreases n - i,
        {
            let short = self.handles_with_uuids[i].1.try_into_u16();
            assert(s[i as int] == self.handles_with_uuids@[i as int]@);
            assert(short == spec_short_u16(s[i as int].1));
            if short.is_none() {
                all_short = false;
            }
            assert(all_short == (forall|k: int| 0 <= k < i + 1 ==> (#[trigger] spec_short_u16(s[k].1)) is Some)) by {
                if !all_short {
                    if short.is_none() {
                    } else {
                        let k = choose|k: int| 0 <= k < i && !(#[trigger] spec_short_u16(s[k].1) is Some);
                    }
                }
            }
            i = i + 1;
        }
        let mut v: Vec<u8> = Vec::new();
        v.push(if all_short { Self::UUID_16_BIT } else { Self::UUID_128_BIT });
        let mut i: usize = 0;
        assert(s.take(0) =~= Seq::<(u16, u128)>::empty());
        while i < n
            invariant
                i <= n,
                n == self.handles_with_uuids@.len(),
                s == self.handles_with_uuids@.map_values(|h: HandleWithType| h@),
                all_short == spec_all_short(s),
                v@ == seq![if all_short { 1u8 } else { 2u8 }] + spec_serialize_handles_with_types(s.take(i as int), !all_short),
            decreases n - i,
        {
            let hwt = self.handles_with_uuids[i];
            let mut bytes = u16_bytes(hwt.0);
            v.append(&mut bytes);
            if all_short {
                let short = hwt.1.try_into_u16();
                assert(spec_short_u16(s[i as int].1) is Some);
                let mut b = u16_bytes(short.unwrap());
                v.append(&mut b);
            } else {
                let mut b = le_encode(hwt.1.into_u128(), 16);
                v.append(&mut b);
            }
            assert(s.take(i + 1).drop_last() =~= s.take(i as int));
            i = i + 1;
        }
        assert(s.take(n as int) =~= s);
        v
    }
}

} // verus!

verus! {

/// The parameter of a find by type value request
pub struct TypeValueRequest<D> {
    pub handle_range: HandleRange,
    pub attr_type: u16,
    pub value: D,
}

impl<D: View> View for TypeValueRequest<D> {
    type V = (HandleRange, u16, D::V);

    open spec fn view(&self) -> (HandleRange, u16, D::V) {
        (self.handle_range, self.attr_type, self.value@)
    }
}

impl<D: TransferFormat> TransferFormat for TypeValueRequest<D> {
    open spec fn parse_spec(raw: Seq<u8>) -> Option<(HandleRange, u16, D::V)> {
        if raw.len() >= 6 {
            match (HandleRange::parse_spec(raw.subrange(0, 4)), D::parse_spec(raw.skip(6))) {
                (Some(range), Some(value)) => Some((range, le_value(raw.subrange(4, 6)) as u16, value)),
                _ => None,
            }
        } else {
            None
        }
    }

    open spec fn serialize_spec(v: (HandleRange, u16, D::V)) -> Seq<u8> {
        HandleRange::serialize_spec(v.0) + le_bytes(v.1 as nat, 2) + D::serialize_spec(v.2)
    }

    fn from(raw: &[u8]) -> (r: Result<TypeValueRequest<D>, TransferFormatError>) {
        if raw.len() >= 6 {
            let handle_range = <HandleRange as TransferFormat>::from(vstd::slice::slice_subrange(raw, 0, 4))?;
            let attr_type = u16_of(vstd::slice::slice_subrange(raw, 4, 6));
            let rest = vstd::slice::slice_subrange(raw, 6, raw.len());
            assert(rest@ =~= raw@.skip(6));
            let value = D::from(rest)?;
            Ok(TypeValueRequest { handle_range, attr_type, value })
        } else {
            Err(TransferFormatError::bad_min_size("TypeValueRequest", 6, raw.len()))
        }
    }

    fn into(&self) -> (r: Vec<u8>) {
        let v = concat(TransferFormat::into(&self.handle_range), u16_bytes(self.attr_type));
        concat(v, TransferFormat::into(&self.value))
    }
}

/// One handle of a find by type value response
#[derive(Clone, Copy, Debug, PartialEq, Eq, Structural)]
pub struct TypeValueResponse {
    pub handle: u16,
    pub group: u16,
}

impl TypeValueResponse {
    pub fn new(handle: u16, group: u16) -> (r: TypeValueResponse)
        ensures
            r == (TypeValueResponse { handle, group }),
    {
        TypeValueResponse { handle, group }
    }
}

impl View for TypeValueResponse {
    type V = TypeValueResponse;

    open spec fn view(&self) -> TypeValueResponse {
        *self
    }
}

impl IdentityView for TypeValueResponse {
    proof fn lemma_view_is_identity(&self) {}
}

impl TransferFormat for TypeValueResponse {
    open spec fn parse_spec(raw: Seq<u8>) -> Option<TypeValueResponse> {
        if raw.len() == 4 {
            Some(TypeValueResponse {
                handle: le_value(raw.subrange(0, 2)) as u16,
                group: le_value(raw.subrange(2, 4)) as u16,
            })
        } else {
            None
        }
    }

    open spec fn serialize_spec(v: TypeValueResponse) -> Seq<u8> {
        le_bytes(v.handle as nat, 2) + le_bytes(v.group as nat, 2)
    }

    fn from(raw: &[u8]) -> (r: Result<TypeValueResponse, TransferFormatError>) {
        if raw.len() == 4 {
            Ok(TypeValueResponse {
                handle: u16_of(vstd::slice::slice_subrange(raw, 0, 2)),
                group: u16_of(vstd::slice::slice_subrange(raw, 2, 4)),
            })
        } else {
            Err(TransferFormatError::bad_size("TypeValueResponse", 4, raw.len()))
        }
    }

    fn into(&self) -> (r: Vec<u8>) {
        concat(u16_bytes(self.handle), u16_bytes(self.group))
    }
}

impl TransferFormatSize for TypeValueResponse {
    open spec fn size_spec() -> nat { 4 }
    fn size() -> (r: usize) { 4 }
}

/// The parameter for the type request ATT PDU
#[derive(Clone, Copy)]
pub struct TypeRequest {
    pub handle_range: HandleRange,
    pub attr_type: UUID,
}

impl View for TypeRequest {
    type V = (HandleRange, u128);

    open spec fn view(&self) -> (HandleRange, u128) {
        (self.handle_range, self.attr_type@)
    }
}

impl TransferFormat for TypeRequest {
    open spec fn parse_spec(raw: Seq<u8>) -> Option<(HandleRange, u128)> {
        if raw.len() == 6 || raw.len() == 20 {
            match (HandleRange::parse_spec(raw.subrange(0, 4)), UUID::parse_spec(raw.skip(4))) {
                (Some(range), Some(uuid)) => Some((range, uuid)),
                _ => None,
            }
        } else {
            None
        }
    }

    open spec fn serialize_spec(v: (HandleRange, u128)) -> Seq<u8> {
        HandleRange::serialize_spec(v.0) + UUID::serialize_spec(v.1)
    }

    fn from(raw: &[u8]) -> (r: Result<TypeRequest, TransferFormatError>) {
        if raw.len() == 6 || raw.len() == 20 {
            let handle_range = <HandleRange as TransferFormat>::from(vstd::slice::slice_subrange(raw, 0, 4))?;
            let rest = vstd::slice::slice_subrange(raw, 4, raw.len());
            assert(rest@ =~= raw@.skip(4));
            let attr_type = <UUID as TransferFormat>::from(rest)?;
            Ok(TypeRequest { handle_range, attr_type })
        } else {
            Err(TransferFormatError::bad_size("TypeRequest", 6, raw.len()))
        }
    }

    fn into(&self) -> (r: Vec<u8>) {
        concat(TransferFormat::into(&self.handle_range), TransferFormat::into(&self.attr_type))
    }
}

/// A single read type response
///
/// The read type response will contain one or more of these
#[derive(Debug)]
pub struct ReadTypeResponse<D> {
    pub handle: u16,
    pub data: D,
}

impl<D> ReadTypeResponse<D> {
    pub fn new(handle: u16, data: D) -> (r: ReadTypeResponse<D>)
        ensures
            r == (ReadTypeResponse { handle, data }),
    {
        ReadTypeResponse { handle, data }
    }
}

impl<D: IdentityView> View for ReadTypeResponse<D> {
    type V = ReadTypeResponse<D>;

    open spec fn view(&self) -> ReadTypeResponse<D> {
        *self
    }
}

impl<D: IdentityView> IdentityView for ReadTypeResponse<D> {
    proof fn lemma_view_is_identity(&self) {}
}

impl<D: TransferFormat + TransferFormatSize + IdentityView> TransferFormat for ReadTypeResponse<D> {
    open spec fn parse_spec(raw: Seq<u8>) -> Option<ReadTypeResponse<D>> {
        if raw.len() == 2 + D::size_spec() {
            match D::parse_spec(raw.skip(2)) {
                Some(data) => Some(ReadTypeResponse { handle: le_value(raw.subrange(0, 2)) as u16, data }),
                None => None,
            }
        } else {
            None
        }
    }

    open spec fn serialize_spec(v: ReadTypeResponse<D>) -> Seq<u8> {
        le_bytes(v.handle as nat, 2) + D::serialize_spec(v.data)
    }

    fn from(raw: &[u8]) -> (r: Result<ReadTypeResponse<D>, TransferFormatError>) {
        let size = D::size();
        if raw.len() == 2 + size {
            let handle = u16_of(vstd::slice::slice_subrange(raw, 0, 2));
            let rest = vstd::slice::slice_subrange(raw, 2, raw.len());
            assert(rest@ =~= raw@.skip(2));
            let data = D::from(rest)?;
            proof { data.lemma_view_is_identity(); }
            Ok(ReadTypeResponse { handle, data })
        } else {
            Err(TransferFormatError::from_message("Invalid size for ReadTypeResponse"))
        }
    }

    fn into(&self) -> (r: Vec<u8>) {
        proof { self.data.lemma_view_is_identity(); }
        concat(u16_bytes(self.handle), TransferFormat::into(&self.data))
    }
}

/// The size of a value of `inner` bytes behind a header of `header` bytes, saturated at the
/// largest size an Attribute PDU can have
pub open spec fn spec_saturated_size(header: nat, inner: nat) -> nat {
    if header + inner <= 0xFFFF { header + inner } else { 0xFFFF }
}

impl<D: TransferFormatSize> TransferFormatSize for ReadTypeResponse<D> {
    open spec fn size_spec() -> nat { spec_saturated_size(2, D::size_spec()) }

    fn size() -> (r: usize) {
        let s = D::size();
        if s <= 0xFFFF - 2 { 2 + s } else { 0xFFFF }
    }
}

} // verus!

verus! {

/// The parameter of a read blob request
#[derive(Clone, Copy, Debug, PartialEq, Eq, Structural)]
pub struct BlobRequest {
    pub handle: u16,
    pub offset: u16,
}

impl View for BlobRequest {
    type V = BlobRequest;

    open spec fn view(&self) -> BlobRequest {
        *self
    }
}

impl TransferFormat for BlobRequest {
    open spec fn parse_spec(raw: Seq<u8>) -> Option<BlobRequest> {
        if raw.len() == 4 {
            Some(BlobRequest {
                handle: le_value(raw.subrange(0, 2)) as u16,
                offset: le_value(raw.subrange(2, 4)) as u16,
            })
        } else {
            None
        }
    }

    open spec fn serialize_spec(v: BlobRequest) -> Seq<u8> {
        le_bytes(v.handle as nat, 2) + le_bytes(v.offset as nat, 2)
    }

    fn from(raw: &[u8]) -> (r: Result<BlobRequest, TransferFormatError>) {
        if raw.len() == 4 {
            Ok(BlobRequest {
                handle: u16_of(vstd::slice::slice_subrange(raw, 0, 2)),
                offset: u16_of(vstd::slice::slice_subrange(raw, 2, 4)),
            })
        } else {
            Err(TransferFormatError::bad_size("BlobRequest", 4, raw.len()))
        }
    }

    fn into(&self) -> (r: Vec<u8>) {
        concat(u16_bytes(self.handle), u16_bytes(self.offset))
    }
}

/// A single read by group type response
///
/// The read by group type response will contain one or more of these
#[derive(Debug)]
pub struct ReadGroupTypeResponse<D> {
    pub handle: u16,
    pub end_group_handle: u16,
    pub data: D,
}

impl<D> ReadGroupTypeResponse<D> {
    pub fn new(handle: u16, end_group_handle: u16, data: D) -> (r: ReadGroupTypeResponse<D>)
        ensures
            r == (ReadGroupTypeResponse { handle, end_group_handle, data }),
    {
        ReadGroupTypeResponse { handle, end_group_handle, data }
    }
}

impl<D: IdentityView> View for ReadGroupTypeResponse<D> {
    type V = ReadGroupTypeResponse<D>;

    open spec fn view(&self) -> ReadGroupTypeResponse<D> {
        *self
    }
}

impl<D: IdentityView> IdentityView for ReadGroupTypeResponse<D> {
    proof fn lemma_view_is_identity(&self) {}
}

impl<D: TransferFormat + TransferFormatSize + IdentityView> TransferFormat for ReadGroupTypeResponse<D> {
    open spec fn parse_spec(raw: Seq<u8>) -> Option<ReadGroupTypeResponse<D>> {
        if raw.len() == 4 + D::size_spec() {
            match D::parse_spec(raw.skip(4)) {
                Some(data) => Some(ReadGroupTypeResponse {
                    handle: le_value(raw.subrange(0, 2)) as u16,
                    end_group_handle: le_value(raw.subrange(2, 4)) as u16,
                    data,
                }),
                None => None,
            }
        } else {
            None
        }
    }

    open spec fn serialize_spec(v: ReadGroupTypeResponse<D>) -> Seq<u8> {
        le_bytes(v.handle as nat, 2) + le_bytes(v.end_group_handle as nat, 2) + D::serialize_spec(v.data)
    }

    fn from(raw: &[u8]) -> (r: Result<ReadGroupTypeResponse<D>, TransferFormatError>) {
        let size = D::size();
        if raw.len() == 4 + size {
            let handle = u16_of(vstd::slice::slice_subrange(raw, 0, 2));
            let end_group_handle = u16_of(vstd::slice::slice_subrange(raw, 2, 4));
            let rest = vstd::slice::slice_subrange(raw, 4, raw.len());
            assert(rest@ =~= raw@.skip(4));
            let data = D::from(rest)?;
            proof { data.lemma_view_is_identity(); }
            Ok(ReadGroupTypeResponse { handle, end_group_handle, data })
        } else {
            Err(TransferFormatError::from_message("Invalid size for ReadGroupTypeResponse"))
        }
    }

    fn into(&self) -> (r: Vec<u8>) {
        proof { self.data.lemma_view_is_identity(); }
        let v = concat(u16_bytes(self.handle), u16_bytes(self.end_group_handle));
        concat(v, TransferFormat::into(&self.data))
    }
}

impl<D: TransferFormatSize> TransferFormatSize for ReadGroupTypeResponse<D> {
    open spec fn size_spec() -> nat { spec_saturated_size(4, D::size_spec()) }

    fn size() -> (r: usize) {
        let s = D::size();
        if s <= 0xFFFF - 4 { 4 + s } else { 0xFFFF }
    }
}

/// A handle followed by data, the parameter of writes, notifications and indications
pub struct HandleWithData<D> {
    pub handle: u16,
    pub data: D,
}

impl<D: View> View for HandleWithData<D> {
    type V = (u16, D::V);

    open spec fn view(&self) -> (u16, D::V) {
        (self.handle, self.data@)
    }
}

impl<D: TransferFormat> TransferFormat for HandleWithData<D> {
    open spec fn parse_spec(raw: Seq<u8>) -> Option<(u16, D::V)> {
        if raw.len() >= 2 {
            match D::parse_spec(raw.skip(2)) {
                Some(data) => Some((le_value(raw.subrange(0, 2)) as u16, data)),
                None => None,
            }
        } else {
            None
        }
    }

    open spec fn serialize_spec(v: (u16, D::V)) -> Seq<u8> {
        le_bytes(v.0 as nat, 2) + D::serialize_spec(v.1)
    }

    fn from(raw: &[u8]) -> (r: Result<HandleWithData<D>, TransferFormatError>) {
        if raw.len() >= 2 {
            let handle = u16_of(vstd::slice::slice_subrange(raw, 0, 2));
            let rest = vstd::slice::slice_subrange(raw, 2, raw.len());
            assert(rest@ =~= raw@.skip(2));
            let data = D::from(rest)?;
            Ok(HandleWithData { handle, data })
        } else {
            Err(TransferFormatError::bad_min_size("HandleWithData", 2, raw.len()))
        }
    }

    fn into(&self) -> (r: Vec<u8>) {
        concat(u16_bytes(self.handle), TransferFormat::into(&self.data))
    }
}

/// The parameter of a prepare write request or response
pub struct PrepareWriteRequest<D> {
    pub handle: u16,
    pub offset: u16,
    pub data: D,
}

impl<D: View> View for PrepareWriteRequest<D> {
    type V = (u16, u16, D::V);

    open spec fn view(&self) -> (u16, u16, D::V) {
        (self.handle, self.offset, self.data@)
    }
}

impl<D: TransferFormat> TransferFormat for PrepareWriteRequest<D> {
    open spec fn parse_spec(raw: Seq<u8>) -> Option<(u16, u16, D::V)> {
        if raw.len() >= 4 {
            match D::parse_spec(raw.skip(4)) {
                Some(data) => Some((le_value(raw.subrange(0, 2)) as u16, le_value(raw.subrange(2, 4)) as u16, data)),
                None => None,
            }
        } else {
            None
        }
    }

    open spec fn serialize_spec(v: (u16, u16, D::V)) -> Seq<u8> {
        le_bytes(v.0 as nat, 2) + le_bytes(v.1 as nat, 2) + D::serialize_spec(v.2)
    }

    fn from(raw: &[u8]) -> (r: Result<PrepareWriteRequest<D>, TransferFormatError>) {
        if raw.len() >= 4 {
            let handle = u16_of(vstd::slice::slice_subrange(raw, 0, 2));
            let offset = u16_of(vstd::slice::slice_subrange(raw, 2, 4));
            let rest = vstd::slice::slice_subrange(raw, 4, raw.len());
            assert(rest@ =~= raw@.skip(4));
            let data = D::from(rest)?;
            Ok(PrepareWriteRequest { handle, offset, data })
        } else {
            Err(TransferFormatError::bad_min_size("PrepareWriteRequest", 4, raw.len()))
        }
    }

    fn into(&self) -> (r: Vec<u8>) {
        let v = concat(u16_bytes(self.handle), u16_bytes(self.offset));
        concat(v, TransferFormat::into(&self.data))
    }
}

} // verus!

verus! {

/// The view of a PDU with opcode `opcode`, parameters `parameters` and no signature
pub open spec fn spec_pdu<V>(opcode: u8, parameters: V) -> PduView<V> {
    PduView { opcode, parameters, signature: None }
}

/// Error Response Attribute
///
/// This is sent by the server when ever there is an issue with a client's request
pub fn error_response(request_opcode: u8, requested_handle: u16, error: Error) -> (r: Pdu<ErrorAttributeParameter>)
    ensures
        r@ == spec_pdu(spec_server_pdu_raw(ServerPduName::ErrorResponse),
            ErrorAttributeParameter { request_opcode, requested_handle, error }),
{
    Pdu {
        opcode: ServerPduName::ErrorResponse.into_opcode(),
        parameters: ErrorAttributeParameter { request_opcode, requested_handle, error },
        signature: None,
    }
}

/// Request Maximum Transfer Unit (MTU)
///
/// This is sent by the client to tell the server the MTU that the client can receive by the
/// server. The server and client will use the smallest mtu size (not less than the minimum
/// defined in the ATT Protocol) as stated by the exchange MTU request and response.
pub fn exchange_mtu_request(mtu: u16) -> (r: Pdu<u16>)
    ensures
        r@ == spec_pdu(spec_client_pdu_raw(ClientPduName::ExchangeMtuRequest), mtu),
{
    Pdu { opcode: ClientPduName::ExchangeMtuRequest.into_opcode(), parameters: mtu, signature: None }
}

/// Response to a Maximum Transfer Unit (MTU) request
pub fn exchange_mtu_response(mtu: u16) -> (r: Pdu<u16>)
    ensures
        r@ == spec_pdu(spec_server_pdu_raw(ServerPduName::ExchangeMTUResponse), mtu),
{
    Pdu { opcode: ServerPduName::ExchangeMTUResponse.into_opcode(), parameters: mtu, signature: None }
}

/// Find information request
///
/// This is a request from the client for obtaining the mapping of attribute handles on the
/// server to attribute types.
pub fn find_information_request(range: HandleRange) -> (r: Pdu<HandleRange>)
    ensures
        r@ == spec_pdu(spec_client_pdu_raw(ClientPduName::FindInformationRequest), range),
{
    Pdu { opcode: ClientPduName::FindInformationRequest.into_opcode(), parameters: range, signature: None }
}

/// Find information response
///
/// This is the response from a server due to a find information request sent by a client
pub fn find_information_response(handles_with_uuids: &[HandleWithType]) -> (r: Pdu<FormattedHandlesWithType>)
    ensures
        r@ == spec_pdu(spec_server_pdu_raw(ServerPduName::FindInformationResponse),
            handles_with_uuids@.map_values(|h: HandleWithType| h@)),
{
    Pdu {
        opcode: ServerPduName::FindInformationResponse.into_opcode(),
        parameters: FormattedHandlesWithType::new(handles_with_uuids),
        signature: None,
    }
}

/// Find by type value request
///
/// This is sent by the client to the server to find attributes that have a 16 bit UUID as the
/// type and the provided attribute value.
///
/// The uuid must be convertible into a 16 bit assigned number, otherwise this will return an
/// error.
pub fn find_by_type_value_request<D: View>(handle_range: HandleRange, uuid: UUID, value: D)
    -> (r: Result<Pdu<TypeValueRequest<D>>, ()>)
    ensures
        r is Ok <==> spec_short_u16(uuid@) is Some,
        r matches Ok(p) ==> p@ == spec_pdu(spec_client_pdu_raw(ClientPduName::FindByTypeValueRequest),
            (handle_range, spec_short_u16(uuid@).unwrap(), value@)),
{
    match uuid.try_into_u16() {
        Some(short) => Ok(Pdu {
            opcode: ClientPduName::FindByTypeValueRequest.into_opcode(),
            parameters: TypeValueRequest { handle_range, attr_type: short, value },
            signature: None,
        }),
        None => Err(()),
    }
}

pub fn find_by_type_value_response(type_values: Vec<TypeValueResponse>) -> (r: Pdu<Vec<TypeValueResponse>>)
    ensures
        r@ == spec_pdu(spec_server_pdu_raw(ServerPduName::FindByTypeValueResponse), type_values@),
{
    Pdu { opcode: ServerPduName::FindByTypeValueResponse.into_opcode(), parameters: type_values, signature: None }
}

/// Read attributes by type
///
/// This is a request from the client for finding attributes by their type within a range of
/// handles.
pub fn read_by_type_request(handle_range: HandleRange, attr_type: UUID) -> (r: Pdu<TypeRequest>)
    ensures
        r@ == spec_pdu(spec_client_pdu_raw(ClientPduName::ReadByTypeRequest), (handle_range, attr_type@)),
{
    Pdu {
        opcode: ClientPduName::ReadByTypeRequest.into_opcode(),
        parameters: TypeRequest { handle_range, attr_type },
        signature: None,
    }
}

/// Read attribute by type response
///
/// This generates a PDU, but that PDU isn't checked if it is larger than the ATT MTU or if the
/// size of type D is greater than 255.
pub fn read_by_type_response<D: IdentityView>(responses: Vec<ReadTypeResponse<D>>) -> (r: Pdu<Vec<ReadTypeResponse<D>>>)
    ensures
        r@ == spec_pdu(spec_server_pdu_raw(ServerPduName::ReadByTypeResponse), responses@),
{
    Pdu { opcode: ServerPduName::ReadByTypeResponse.into_opcode(), parameters: responses, signature: None }
}

pub fn read_request(handle: u16) -> (r: Pdu<u16>)
    ensures
        r@ == spec_pdu(spec_client_pdu_raw(ClientPduName::ReadRequest), handle),
{
    Pdu { opcode: ClientPduName::ReadRequest.into_opcode(), parameters: handle, signature: None }
}

pub fn read_response<D: View>(value: D) -> (r: Pdu<D>)
    ensures
        r@ == spec_pdu(spec_server_pdu_raw(ServerPduName::ReadResponse), value@),
{
    Pdu { opcode: ServerPduName::ReadResponse.into_opcode(), parameters: value, signature: None }
}

pub fn read_blob_request(handle: u16, offset: u16) -> (r: Pdu<BlobRequest>)
    ensures
        r@ == spec_pdu(spec_client_pdu_raw(ClientPduName::ReadBlobRequest), BlobRequest { handle, offset }),
{
    Pdu { opcode: ClientPduName::ReadBlobRequest.into_opcode(), parameters: BlobRequest { handle, offset }, signature: None }
}

/// Read blob response
///
/// The parameter is the part of the transfer format of `value` that starts at `offset` and is
/// `att_mtu` bytes long.
pub fn read_blob_response<D: TransferFormat>(value: D, offset: usize, att_mtu: usize) -> (r: Pdu<Vec<u8>>)
    requires
        offset + att_mtu <= D::serialize_spec(value@).len(),
    ensures
        r@ == spec_pdu(spec_server_pdu_raw(ServerPduName::ReadBlobResponse),
            D::serialize_spec(value@).subrange(offset as int, offset + att_mtu)),
{
    let bytes = TransferFormat::into(&value);
    assert(bytes@.len() == bytes.len());
    let part = vstd::slice::slice_to_vec(vstd::slice::slice_subrange(bytes.as_slice(), offset, offset + att_mtu));
    Pdu { opcode: ServerPduName::ReadBlobResponse.into_opcode(), parameters: part, signature: None }
}

/// Request multiple reads
///
/// This is sent by the client to requests 2 or more values to read. If the length of the input
/// is less than 2 then the return will be an error.
pub fn read_multiple_request(handles: Vec<u16>) -> (r: Result<Pdu<Vec<u16>>, ()>)
    ensures
        r is Ok <==> handles@.len() >= 2,
        r matches Ok(p) ==> p@ == spec_pdu(spec_client_pdu_raw(ClientPduName::ReadMultipleRequest), handles@),
{
    if handles.len() >= 2 {
        Ok(Pdu { opcode: ClientPduName::ReadMultipleRequest.into_opcode(), parameters: handles, signature: None })
    } else {
        Err(())
    }
}

/// Read Multiple Response
///
/// Server response to a read multiple request; the parameter is the concatenation of the
/// transfer formats of the values read.
pub fn read_multiple_response(values: Vec<u8>) -> (r: Pdu<Vec<u8>>)
    ensures
        r@ == spec_pdu(spec_server_pdu_raw(ServerPduName::ReadMultipleResponse), values@),
{
    Pdu { opcode: ServerPduName::ReadMultipleResponse.into_opcode(), parameters: values, signature: None }
}

/// Read an attribute group request
///
/// Client request for reading attributes' data that are under a group specified by a higher
/// layer protocol.
pub fn read_by_group_type_request(handle_range: HandleRange, group_type: UUID) -> (r: Pdu<TypeRequest>)
    ensures
        r@ == spec_pdu(spec_client_pdu_raw(ClientPduName::ReadByGroupTypeRequest), (handle_range, group_type@)),
{
    Pdu {
        opcode: ClientPduName::ReadByGroupTypeRequest.into_opcode(),
        parameters: TypeRequest { handle_range, attr_type: group_type },
        signature: None,
    }
}

/// Read an attribute group response
pub fn read_by_group_type_response<D: IdentityView>(responses: Vec<ReadGroupTypeResponse<D>>)
    -> (r: Pdu<Vec<ReadGroupTypeResponse<D>>>)
    ensures
        r@ == spec_pdu(spec_server_pdu_raw(ServerPduName::ReadByGroupTypeResponse), responses@),
{
    Pdu { opcode: ServerPduName::ReadByGroupTypeResponse.into_opcode(), parameters: responses, signature: None }
}

/// Write request to an attribute
pub fn write_request<D: View>(handle: u16, data: D) -> (r: Pdu<HandleWithData<D>>)
    ensures
        r@ == spec_pdu(spec_client_pdu_raw(ClientPduName::WriteRequest), (handle, data@)),
{
    Pdu { opcode: ClientPduName::WriteRequest.into_opcode(), parameters: HandleWithData { handle, data }, signature: None }
}

/// Write response
pub fn write_response() -> (r: Pdu<()>)
    ensures
        r@ == spec_pdu(spec_server_pdu_raw(ServerPduName::WriteResponse), ()),
{
    Pdu { opcode: ServerPduName::WriteResponse.into_opcode(), parameters: (), signature: None }
}

pub fn write_command<D: View>(handle: u16, data: D) -> (r: Pdu<HandleWithData<D>>)
    ensures
        r@ == spec_pdu(spec_client_pdu_raw(ClientPduName::WriteCommand), (handle, data@)),
{
    Pdu { opcode: ClientPduName::WriteCommand.into_opcode(), parameters: HandleWithData { handle, data }, signature: None }
}

pub fn prepare_write_request<D: View>(handle: u16, offset: u16, data: D) -> (r: Pdu<PrepareWriteRequest<D>>)
    ensures
        r@ == spec_pdu(spec_client_pdu_raw(ClientPduName::PrepareWriteRequest), (handle, offset, data@)),
{
    Pdu {
        opcode: ClientPduName::PrepareWriteRequest.into_opcode(),
        parameters: PrepareWriteRequest { handle, offset, data },
        signature: None,
    }
}

pub fn prepare_write_response<D: View>(handle: u16, offset: u16, data: D) -> (r: Pdu<PrepareWriteRequest<D>>)
    ensures
        r@ == spec_pdu(spec_server_pdu_raw(ServerPduName::PrepareWriteResponse), (handle, offset, data@)),
{
    Pdu {
        opcode: ServerPduName::PrepareWriteResponse.into_opcode(),
        parameters: PrepareWriteRequest { handle, offset, data },
        signature: None,
    }
}

/// Execute all queued prepared writes
///
/// If the execute flag is false, then everything in the queue is not written and instead the
/// client is indicating to the server to drop all data in the queue.
pub fn execute_write_request(execute: bool) -> (r: Pdu<u8>)
    ensures
        r@ == spec_pdu(spec_client_pdu_raw(ClientPduName::ExecuteWriteRequest), if execute { 1u8 } else { 0u8 }),
{
    Pdu {
        opcode: ClientPduName::ExecuteWriteRequest.into_opcode(),
        parameters: if execute { 0x1 } else { 0x0 },
        signature: None,
    }
}

pub fn execute_write_response() -> (r: Pdu<()>)
    ensures
        r@ == spec_pdu(spec_server_pdu_raw(ServerPduName::ExecuteWriteResponse), ()),
{
    Pdu { opcode: ServerPduName::ExecuteWriteResponse.into_opcode(), parameters: (), signature: None }
}

/// A server sent notification
pub fn handle_value_notification<D: View>(handle: u16, data: D) -> (r: Pdu<HandleWithData<D>>)
    ensures
        r@ == spec_pdu(spec_server_pdu_raw(ServerPduName::HandleValueNotification), (handle, data@)),
{
    Pdu { opcode: ServerPduName::HandleValueNotification.into_opcode(), parameters: HandleWithData { handle, data }, signature: None }
}

/// A server sent indication
pub fn handle_value_indication<D: View>(handle: u16, data: D) -> (r: Pdu<HandleWithData<D>>)
    ensures
        r@ == spec_pdu(spec_server_pdu_raw(ServerPduName::HandleValueIndication), (handle, data@)),
{
    Pdu { opcode: ServerPduName::HandleValueIndication.into_opcode(), parameters: HandleWithData { handle, data }, signature: None }
}

/// A client sent confirmation to an indication
pub fn handle_value_confirmation() -> (r: Pdu<()>)
    ensures
        r@ == spec_pdu(spec_client_pdu_raw(ClientPduName::HandleValueConfirmation), ()),
{
    Pdu { opcode: ClientPduName::HandleValueConfirmation.into_opcode(), parameters: (), signature: None }
}

} // verus!
