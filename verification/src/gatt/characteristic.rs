//! Characteristics of the Generic Attribute Profile
use vstd::prelude::*;
use crate::att::{self, TransferFormat, TransferFormatSize, TransferFormatError, IdentityView};
use crate::att::le::{le_value, le_bytes};
use crate::att::pdu::{u16_bytes, u16_of, concat};
use crate::uuid::UUID;

verus! {

/// Characteristic Properties
///
/// These are the properties that are part of the Characteristic Declaration
#[derive(Clone, Copy, PartialEq, Eq, Debug, Structural, PartialOrd, Ord)]
pub enum Properties {
    Broadcast,
    Read,
    WriteWithoutResponse,
    Write,
    Notify,
    Indicate,
    AuthenticatedSignedWrite,
    ExtendedProperties,
}

/// The bit of a property in the properties bit field
pub open spec fn spec_property_bit(p: Properties) -> u8 {
    match p {
        Properties::Broadcast => 0x01,
        Properties::Read => 0x02,
        Properties::WriteWithoutResponse => 0x04,
        Properties::Write => 0x08,
        Properties::Notify => 0x10,
        Properties::Indicate => 0x20,
        Properties::AuthenticatedSignedWrite => 0x40,
        Properties::ExtendedProperties => 0x80,
    }
}

/// The property of bit number `shift` of the bit field
pub open spec fn spec_property_of_shift(shift: int) -> Properties {
    if shift == 0 { Properties::Broadcast }
    else if shift == 1 { Properties::Read }
    else if shift == 2 { Properties::WriteWithoutResponse }
    else if shift == 3 { Properties::Write }
    else if shift == 4 { Properties::Notify }
    else if shift == 5 { Properties::Indicate }
    else if shift == 6 { Properties::AuthenticatedSignedWrite }
    else { Properties::ExtendedProperties }
}

/// The bit field of a list of properties: the bits of all of them
pub open spec fn spec_bit_field(s: Seq<Properties>) -> u8
    decreases s.len(),
{
    if s.len() == 0 {
        0
    } else {
        spec_bit_field(s.drop_last()) | spec_property_bit(s.last())
    }
}

/// The properties whose bits are set in `field` among the lowest `n` bits, lowest bit first
pub open spec fn spec_properties_of_field(field: u8, n: int) -> Seq<Properties>
    decreases n,
{
    if n <= 0 {
        Seq::empty()
    } else {
        let prev = spec_properties_of_field(field, n - 1);
        if field & (1u8 << ((n - 1) as u8)) != 0 {
            prev.push(spec_property_of_shift(n - 1))
        } else {
            prev
        }
    }
}

impl Properties {
    pub fn into_val(&self) -> (r: u8)
        ensures
            r == spec_property_bit(*self),
    {
        match *self {
            Properties::Broadcast => 0x01,
            Properties::Read => 0x02,
            Properties::WriteWithoutResponse => 0x04,
            Properties::Write => 0x08,
            Properties::Notify => 0x10,
            Properties::Indicate => 0x20,
            Properties::AuthenticatedSignedWrite => 0x40,
            Properties::ExtendedProperties => 0x80,
        }
    }

    /// The bit field of the properties
    pub fn into_bit_field(properties: &[Properties]) -> (r: u8)
        ensures
            r == spec_bit_field(properties@),
    {
        let mut u: u8 = 0;
        let mut i: usize = 0;
        assert(properties@.take(0) =~= Seq::<Properties>::empty());
        while i < properties.len()
            invariant
                i <= properties.len(),
                u == spec_bit_field(properties@.take(i as int)),
            decreases properties.len() - i,
        {
            assert(properties@.take(i + 1).drop_last() =~= properties@.take(i as int));
            u = u | properties[i].into_val();
            i = i + 1;
        }
        assert(properties@.take(properties.len() as int) =~= properties@);
        u
    }

    /// The properties whose bits are set in the bit field, lowest bit first
    pub fn from_bit_field(field: u8) -> (r: Vec<Properties>)
        ensures
            r@ == spec_properties_of_field(field, 8),
    {
        let mut vec: Vec<Properties> = Vec::new();
        let mut shift: u8 = 0;
        while shift < 8
            invariant
                shift <= 8,
                vec@ == spec_properties_of_field(field, shift as int),
            decreases 8 - shift,
        {
            let bit = field & (1u8 << shift);
            if bit != 0 {
                let p = match shift {
                    0 => Properties::Broadcast,
                    1 => Properties::Read,
                    2 => Properties::WriteWithoutResponse,
                    3 => Properties::Write,
                    4 => Properties::Notify,
                    5 => Properties::Indicate,
                    6 => Properties::AuthenticatedSignedWrite,
                    _ => Properties::ExtendedProperties,
                };
                vec.push(p);
            }
            shift = shift + 1;
        }
        vec
    }
}

/// The bit number of a property in the properties bit field
pub open spec fn spec_property_shift(p: Properties) -> int {
    match p {
        Properties::Broadcast => 0,
        Properties::Read => 1,
        Properties::WriteWithoutResponse => 2,
        Properties::Write => 3,
        Properties::Notify => 4,
        Properties::Indicate => 5,
        Properties::AuthenticatedSignedWrite => 6,
        Properties::ExtendedProperties => 7,
    }
}

/// Whether `b` is the bit of a property
spec fn spec_is_property_bit(b: u8) -> bool {
    b == 0x01 || b == 0x02 || b == 0x04 || b == 0x08 || b == 0x10 || b == 0x20 || b == 0x40 || b == 0x80
}

/// The bit of bit number `k`
proof fn lemma_shift_bits(k: int)
    requires
        0 <= k < 8,
    ensures
        1u8 << (k as u8) == spec_property_bit(spec_property_of_shift(k)),
        spec_property_shift(spec_property_of_shift(k)) == k,
{
    assert(1u8 << 0u8 == 0x01u8 && 1u8 << 1u8 == 0x02u8 && 1u8 << 2u8 == 0x04u8 && 1u8 << 3u8 == 0x08u8
        && 1u8 << 4u8 == 0x10u8 && 1u8 << 5u8 == 0x20u8 && 1u8 << 6u8 == 0x40u8 && 1u8 << 7u8 == 0x80u8) by (bit_vector);
}

/// A property is read from the lowest `n` bits of a field where its bit is among them and set
proof fn lemma_properties_of_field_contains(field: u8, n: int, p: Properties)
    requires
        0 <= n <= 8,
    ensures
        spec_properties_of_field(field, n).contains(p)
            <==> (spec_property_shift(p) < n && field & spec_property_bit(p) != 0),
    decreases n,
{
    if n > 0 {
        lemma_properties_of_field_contains(field, n - 1, p);
        lemma_shift_bits(n - 1);
        let prev = spec_properties_of_field(field, n - 1);
        let q = spec_property_of_shift(n - 1);
        if field & (1u8 << ((n - 1) as u8)) != 0 {
            assert(prev.push(q).contains(p) <==> (prev.contains(p) || q == p)) by {
                if prev.push(q).contains(p) {
                    let k = choose|k: int| 0 <= k < prev.push(q).len() && prev.push(q)[k] == p;
                    if k < prev.len() {
                        assert(prev[k] == p);
                    }
                }
                if prev.contains(p) {
                    let k = choose|k: int| 0 <= k < prev.len() && prev[k] == p;
                    assert(prev.push(q)[k] == p);
                }
                if q == p {
                    assert(prev.push(q)[prev.len() as int] == p);
                }
            }
        }
    }
}

/// A property has its bit set in the bit field of a list exactly where the list holds it
proof fn lemma_bit_field_contains(s: Seq<Properties>, p: Properties)
    ensures
        spec_bit_field(s) & spec_property_bit(p) != 0 <==> s.contains(p),
    decreases s.len(),
{
    let c = spec_property_bit(p);
    assert(spec_is_property_bit(c));
    if s.len() == 0 {
        assert(0u8 & c == 0) by (bit_vector);
    } else {
        let rest = s.drop_last();
        lemma_bit_field_contains(rest, p);
        let x = spec_bit_field(rest);
        let b = spec_property_bit(s.last());
        assert(spec_is_property_bit(b));
        assert(((x | b) & c != 0) == (x & c != 0 || b & c != 0)) by (bit_vector);
        assert(spec_is_property_bit(b) && spec_is_property_bit(c) ==> ((b & c != 0) == (b == c))) by (bit_vector);
        assert(s =~= rest.push(s.last()));
        assert(s.contains(p) <==> (rest.contains(p) || s.last() == p)) by {
            if s.contains(p) {
                let k = choose|k: int| 0 <= k < s.len() && s[k] == p;
                if k < rest.len() {
                    assert(rest[k] == p);
                }
            }
            if rest.contains(p) {
                let k = choose|k: int| 0 <= k < rest.len() && rest[k] == p;
                assert(s[k] == p);
            }
        }
    }
}

/// The properties read from the bit field of a list of properties are those of the list.
pub proof fn lemma_properties_bit_field_roundtrip(s: Seq<Properties>)
    ensures
        forall|p: Properties| spec_properties_of_field(spec_bit_field(s), 8).contains(p) <==> s.contains(p),
{
    assert forall|p: Properties| spec_properties_of_field(spec_bit_field(s), 8).contains(p) <==> s.contains(p) by {
        lemma_properties_of_field_contains(spec_bit_field(s), 8, p);
        lemma_bit_field_contains(s, p);
    }
}

/// A characteristic declaration of a UUID without a 16 bit short form is read back from its
/// transfer format: its properties, its value handle and its UUID.
///
/// A declaration of a UUID with a short form has a transfer format of five bytes, which is
/// shorter than a declaration is read from.
pub proof fn lemma_declaration_roundtrip(v: (Seq<Properties>, u16, u128))
    requires
        crate::uuid::spec_short_u16(v.2) is None,
    ensures
        Declaration::parse_spec(Declaration::serialize_spec(v)) matches Some(w)
            && w.1 == v.1 && w.2 == v.2 && forall|p: Properties| w.0.contains(p) <==> v.0.contains(p),
{
    let raw = Declaration::serialize_spec(v);
    crate::att::laws::lemma_uuid_roundtrip(v.2);
    crate::att::le::lemma_pow256_values();
    crate::att::le::lemma_le_roundtrip(v.1 as nat, 2);
    assert(raw.subrange(1, 3) =~= le_bytes(v.1 as nat, 2));
    assert(raw.skip(3) =~= UUID::serialize_spec(v.2));
    lemma_properties_bit_field_roundtrip(v.0);
}

/// Each characteristic descriptor value is read back from its transfer format.
pub proof fn lemma_descriptor_roundtrip(e: ExtendedProperties, c: ClientConfiguration, s: ServerConfiguration)
    ensures
        ExtendedProperties::parse_spec(ExtendedProperties::serialize_spec(e)) == Some(e),
        ClientConfiguration::parse_spec(ClientConfiguration::serialize_spec(c)) == Some(c),
        ServerConfiguration::parse_spec(ServerConfiguration::serialize_spec(s)) == Some(s),
{
    crate::att::le::lemma_pow256_values();
    crate::att::le::lemma_le_roundtrip(1, 2);
    crate::att::le::lemma_le_roundtrip(2, 2);
}

/// The characteristic declaration attribute value
pub struct Declaration {
    pub properties: Vec<Properties>,
    pub value_handle: u16,
    pub uuid: UUID,
}

impl View for Declaration {
    type V = (Seq<Properties>, u16, u128);

    open spec fn view(&self) -> (Seq<Properties>, u16, u128) {
        (self.properties@, self.value_handle, self.uuid@)
    }
}

impl Declaration {
    pub const TYPE: u16 = 0x2803;
}

impl TransferFormat for Declaration {
    open spec fn parse_spec(raw: Seq<u8>) -> Option<(Seq<Properties>, u16, u128)> {
        if raw.len() >= 6 {
            match UUID::parse_spec(raw.skip(3)) {
                Some(uuid) => Some((spec_properties_of_field(raw[0], 8), le_value(raw.subrange(1, 3)) as u16, uuid)),
                None => None,
            }
        } else {
            None
        }
    }

    open spec fn serialize_spec(v: (Seq<Properties>, u16, u128)) -> Seq<u8> {
        seq![spec_bit_field(v.0)] + le_bytes(v.1 as nat, 2) + UUID::serialize_spec(v.2)
    }

    fn from(raw: &[u8]) -> (r: Result<Declaration, TransferFormatError>) {
        // The implementation of TransferFormat for UUID checks the length of the UUID
        if raw.len() >= 6 {
            let properties = Properties::from_bit_field(raw[0]);
            let value_handle = u16_of(vstd::slice::slice_subrange(raw, 1, 3));
            let rest = vstd::slice::slice_subrange(raw, 3, raw.len());
            assert(rest@ =~= raw@.skip(3));
            let uuid = <UUID as TransferFormat>::from(rest)?;
            Ok(Declaration { properties, value_handle, uuid })
        } else {
            Err(TransferFormatError::from_message("Invalid declaration"))
        }
    }

    fn into(&self) -> (r: Vec<u8>) {
        let mut v: Vec<u8> = Vec::new();
        v.push(Properties::into_bit_field(self.properties.as_slice()));
        let v = concat(v, u16_bytes(self.value_handle));
        concat(v, TransferFormat::into(&self.uuid))
    }
}

/// Characteristic extended properties
#[derive(Clone, Copy, PartialEq, Eq, Debug, Structural)]
pub enum ExtendedProperties {
    ReliableWrite,
    WritableAuxiliaries,
}

/// The 16 bit value of a descriptor bit
pub open spec fn spec_descriptor_bytes(val: u16) -> Seq<u8> {
    le_bytes(val as nat, 2)
}

impl View for ExtendedProperties {
    type V = ExtendedProperties;

    open spec fn view(&self) -> ExtendedProperties {
        *self
    }
}

impl IdentityView for ExtendedProperties {
    proof fn lemma_view_is_identity(&self) {}
}

impl TransferFormat for ExtendedProperties {
    open spec fn parse_spec(raw: Seq<u8>) -> Option<ExtendedProperties> {
        if raw.len() == 2 {
            let v = le_value(raw);
            if v == 1 { Some(ExtendedProperties::ReliableWrite) }
            else if v == 2 { Some(ExtendedProperties::WritableAuxiliaries) }
            else { None }
        } else {
            None
        }
    }

    open spec fn serialize_spec(v: ExtendedProperties) -> Seq<u8> {
        match v {
            ExtendedProperties::ReliableWrite => spec_descriptor_bytes(1),
            ExtendedProperties::WritableAuxiliaries => spec_descriptor_bytes(2),
        }
    }

    fn from(raw: &[u8]) -> (r: Result<ExtendedProperties, TransferFormatError>) {
        if raw.len() == 2 {
            match u16_of(raw) {
                0x1 => Ok(ExtendedProperties::ReliableWrite),
                0x2 => Ok(ExtendedProperties::WritableAuxiliaries),
                _ => Err(TransferFormatError::from_pdu_error(att::pdu::Error::InvalidPDU)),
            }
        } else {
            Err(TransferFormatError::from_pdu_error(att::pdu::Error::InvalidPDU))
        }
    }

    fn into(&self) -> (r: Vec<u8>) {
        let val: u16 = match *self {
            ExtendedProperties::ReliableWrite => 0x1,
            ExtendedProperties::WritableAuxiliaries => 0x2,
        };
        u16_bytes(val)
    }
}

impl TransferFormatSize for ExtendedProperties {
    open spec fn size_spec() -> nat { 2 }
    fn size() -> (r: usize) { 2 }
}

impl ExtendedProperties {
    pub const TYPE: u16 = 0x2900;
}

/// A user description of a characteristic
pub struct UserDescription {
    pub value: String,
    pub permissions: Vec<att::AttributePermissions>,
}

impl UserDescription {
    pub const TYPE: u16 = 0x2901;

    pub fn new(description: &str, permissions: Vec<att::AttributePermissions>) -> (r: UserDescription)
        ensures
            r.value@ == description@,
            r.permissions@ == permissions@,
    {
        UserDescription { value: description.to_owned(), permissions }
    }
}

/// Client characteristic configuration
#[derive(Clone, Copy, PartialEq, Eq, Debug, Structural)]
pub enum ClientConfiguration {
    Notification,
    Indication,
}

impl View for ClientConfiguration {
    type V = ClientConfiguration;

    open spec fn view(&self) -> ClientConfiguration {
        *self
    }
}

impl IdentityView for ClientConfiguration {
    proof fn lemma_view_is_identity(&self) {}
}

impl TransferFormat for ClientConfiguration {
    open spec fn parse_spec(raw: Seq<u8>) -> Option<ClientConfiguration> {
        if raw.len() == 2 {
            let v = le_value(raw);
            if v == 1 { Some(ClientConfiguration::Notification) }
            else if v == 2 { Some(ClientConfiguration::Indication) }
            else { None }
        } else {
            None
        }
    }

    open spec fn serialize_spec(v: ClientConfiguration) -> Seq<u8> {
        match v {
            ClientConfiguration::Notification => spec_descriptor_bytes(1),
            ClientConfiguration::Indication => spec_descriptor_bytes(2),
        }
    }

    fn from(raw: &[u8]) -> (r: Result<ClientConfiguration, TransferFormatError>) {
        if raw.len() == 2 {
            match u16_of(raw) {
                0x1 => Ok(ClientConfiguration::Notification),
                0x2 => Ok(ClientConfiguration::Indication),
                _ => Err(TransferFormatError::from_pdu_error(att::pdu::Error::InvalidPDU)),
            }
        } else {
            Err(TransferFormatError::from_pdu_error(att::pdu::Error::InvalidPDU))
        }
    }

    fn into(&self) -> (r: Vec<u8>) {
        let val: u16 = match *self {
            ClientConfiguration::Notification => 0x1,
            ClientConfiguration::Indication => 0x2,
        };
        u16_bytes(val)
    }
}

impl TransferFormatSize for ClientConfiguration {
    open spec fn size_spec() -> nat { 2 }
    fn size() -> (r: usize) { 2 }
}

impl ClientConfiguration {
    pub const TYPE: u16 = 0x2902;

    pub fn permissions() -> (r: Vec<att::AttributePermissions>)
        ensures
            r@ == seq![att::AttributePermissions::Read,
                att::AttributePermissions::Authentication(att::AttributeRestriction::Write),
                att::AttributePermissions::Authorization(att::AttributeRestriction::Write)],
    {
        let mut v: Vec<att::AttributePermissions> = Vec::new();
        v.push(att::AttributePermissions::Read);
        v.push(att::AttributePermissions::Authentication(att::AttributeRestriction::Write));
        v.push(att::AttributePermissions::Authorization(att::AttributeRestriction::Write));
        v
    }
}

/// Server characteristic configuration
#[derive(Clone, Copy, PartialEq, Eq, Debug, Structural)]
pub enum ServerConfiguration {
    Broadcast,
}

impl View for ServerConfiguration {
    type V = ServerConfiguration;

    open spec fn view(&self) -> ServerConfiguration {
        *self
    }
}

impl IdentityView for ServerConfiguration {
    proof fn lemma_view_is_identity(&self) {}
}

impl TransferFormat for ServerConfiguration {
    open spec fn parse_spec(raw: Seq<u8>) -> Option<ServerConfiguration> {
        if raw.len() == 2 && le_value(raw) == 1 { Some(ServerConfiguration::Broadcast) } else { None }
    }

    open spec fn serialize_spec(v: ServerConfiguration) -> Seq<u8> {
        spec_descriptor_bytes(1)
    }

    fn from(raw: &[u8]) -> (r: Result<ServerConfiguration, TransferFormatError>) {
        if raw.len() == 2 {
            match u16_of(raw) {
                0x1 => Ok(ServerConfiguration::Broadcast),
                _ => Err(TransferFormatError::from_pdu_error(att::pdu::Error::InvalidPDU)),
            }
        } else {
            Err(TransferFormatError::from_pdu_error(att::pdu::Error::InvalidPDU))
        }
    }

    fn into(&self) -> (r: Vec<u8>) {
        u16_bytes(0x1)
    }
}

impl TransferFormatSize for ServerConfiguration {
    open spec fn size_spec() -> nat { 2 }
    fn size() -> (r: usize) { 2 }
}

impl ServerConfiguration {
    pub const TYPE: u16 = 0x2903;
}

} // verus!

verus! {

use crate::att::{AttributePermissions, AttributeRestriction, IntoAttributeValue};
use super::{CharacteristicAdder, AttributeSpec, spec_appended, spec_same_service, spec_assigned, spec_read_only,
    push_attribute, read_only, lemma_appended_trans};

/// The permissions of the configuration descriptors
pub open spec fn spec_configuration_permissions() -> Seq<AttributePermissions> {
    seq![
        AttributePermissions::Read,
        AttributePermissions::Authentication(AttributeRestriction::Write),
        AttributePermissions::Authorization(AttributeRestriction::Write),
    ]
}

/// What a characteristic is made of: its declaration, its value, and its descriptors
pub struct CharacteristicView {
    pub properties: Seq<Properties>,
    pub uuid: u128,
    pub value_permissions: Seq<AttributePermissions>,
    pub value_bytes: Seq<u8>,
    pub value_kind: crate::att::ValueKind,
    pub extended_properties: Option<Seq<ExtendedProperties>>,
    pub user_description: Option<(Seq<char>, Seq<AttributePermissions>)>,
    pub client_configuration: Option<Seq<ClientConfiguration>>,
    pub server_configuration: Option<Seq<ServerConfiguration>>,
}

/// The attributes of a characteristic whose declaration is at `declaration_handle`: the
/// declaration, the value right after it, then the descriptors that were set, in the order
/// extended properties, user description, client configuration, server configuration
pub open spec fn spec_characteristic_attributes(c: CharacteristicView, declaration_handle: int) -> Seq<AttributeSpec> {
    seq![
        AttributeSpec {
            ty: spec_assigned(Declaration::TYPE),
            permissions: spec_read_only(),
            bytes: <Declaration as TransferFormat>::serialize_spec((c.properties, (declaration_handle + 1) as u16, c.uuid)),
            kind: crate::att::ValueKind::Declaration,
        },
        AttributeSpec { ty: c.uuid, permissions: c.value_permissions, bytes: c.value_bytes, kind: c.value_kind },
    ]
    + match c.extended_properties {
        Some(e) => seq![AttributeSpec {
            ty: spec_assigned(ExtendedProperties::TYPE),
            permissions: spec_read_only(),
            bytes: <Vec<ExtendedProperties> as TransferFormat>::serialize_spec(e),
            kind: crate::att::ValueKind::ExtendedProperties,
        }],
        None => Seq::empty(),
    }
    + match c.user_description {
        Some(d) => seq![AttributeSpec {
            ty: spec_assigned(UserDescription::TYPE),
            permissions: d.1,
            bytes: <String as TransferFormat>::serialize_spec(d.0),
            kind: crate::att::ValueKind::Text,
        }],
        None => Seq::empty(),
    }
    + match c.client_configuration {
        Some(cfg) => seq![AttributeSpec {
            ty: spec_assigned(ClientConfiguration::TYPE),
            permissions: spec_configuration_permissions(),
            bytes: <Vec<ClientConfiguration> as TransferFormat>::serialize_spec(cfg),
            kind: crate::att::ValueKind::ClientConfiguration,
        }],
        None => Seq::empty(),
    }
    + match c.server_configuration {
        Some(cfg) => seq![AttributeSpec {
            ty: spec_assigned(ServerConfiguration::TYPE),
            permissions: spec_configuration_permissions(),
            bytes: <Vec<ServerConfiguration> as TransferFormat>::serialize_spec(cfg),
            kind: crate::att::ValueKind::ServerConfiguration,
        }],
        None => Seq::empty(),
    }
}

/// The permissions of the configuration descriptors
fn configuration_permissions() -> (r: Vec<AttributePermissions>)
    ensures
        r@ == spec_configuration_permissions(),
{
    let mut v: Vec<AttributePermissions> = Vec::new();
    v.push(AttributePermissions::Read);
    v.push(AttributePermissions::Authentication(AttributeRestriction::Write));
    v.push(AttributePermissions::Authorization(AttributeRestriction::Write));
    assert(v@ =~= spec_configuration_permissions());
    v
}

/// The builder of a characteristic
pub struct CharacteristicBuilder<'a, V: IntoAttributeValue> {
    characteristic_adder: CharacteristicAdder<'a>,
    properties: Vec<Properties>,
    uuid: UUID,
    value: Box<V>,
    value_permissions: Vec<AttributePermissions>,
    ext_prop: Option<Vec<ExtendedProperties>>,
    user_desc: Option<UserDescription>,
    client_cfg: Option<Vec<ClientConfiguration>>,
    server_cfg: Option<Vec<ServerConfiguration>>,
}

impl<'a, V: IntoAttributeValue> CharacteristicBuilder<'a, V> {
    pub closed spec fn spec_adder(&self) -> CharacteristicAdder<'a> {
        self.characteristic_adder
    }

    pub closed spec fn spec_characteristic(&self) -> CharacteristicView {
        CharacteristicView {
            properties: self.properties@,
            uuid: self.uuid@,
            value_permissions: self.value_permissions@,
            value_bytes: <Box<V> as TransferFormat>::serialize_spec(self.value@),
            value_kind: V::spec_value_kind(),
            extended_properties: match self.ext_prop { Some(e) => Some(e@), None => None },
            user_description: match self.user_desc { Some(d) => Some((d.value@, d.permissions@)), None => None },
            client_configuration: match self.client_cfg { Some(c) => Some(c@), None => None },
            server_configuration: match self.server_cfg { Some(c) => Some(c@), None => None },
        }
    }

    pub(crate) fn new(characteristic_adder: CharacteristicAdder<'a>, properties: Vec<Properties>, uuid: UUID,
        value: Box<V>, value_permissions: Vec<AttributePermissions>) -> (r: CharacteristicBuilder<'a, V>)
        ensures
            r.spec_adder() == characteristic_adder,
            r.spec_characteristic() == (CharacteristicView {
                properties: properties@,
                uuid: uuid@,
                value_permissions: value_permissions@,
                value_bytes: <Box<V> as TransferFormat>::serialize_spec(value@),
                value_kind: V::spec_value_kind(),
                extended_properties: None,
                user_description: None,
                client_configuration: None,
                server_configuration: None,
            }),
    {
        CharacteristicBuilder {
            characteristic_adder,
            properties,
            uuid,
            value,
            value_permissions,
            ext_prop: None,
            user_desc: None,
            client_cfg: None,
            server_cfg: None,
        }
    }

    /// Instruct the builder to create an `Extended Properties` characteristic descriptor
    /// upon building the characteristic unless the value of `extended_properties` is `None`.
    pub fn set_extended_properties(self, extended_properties: Option<Vec<ExtendedProperties>>) -> (r: Self)
        ensures
            r.spec_adder() == self.spec_adder(),
            r.spec_characteristic() == (CharacteristicView {
                extended_properties: match extended_properties { Some(e) => Some(e@), None => None },
                ..self.spec_characteristic()
            }),
    {
        CharacteristicBuilder { ext_prop: extended_properties, ..self }
    }

    /// Instruct the builder to create a `User Description` characteristic descriptor
    /// upon building the characteristic unless the value of `user_description` is `None`.
    pub fn set_user_description(self, user_description: Option<UserDescription>) -> (r: Self)
        ensures
            r.spec_adder() == self.spec_adder(),
            r.spec_characteristic() == (CharacteristicView {
                user_description: match user_description { Some(d) => Some((d.value@, d.permissions@)), None => None },
                ..self.spec_characteristic()
            }),
    {
        CharacteristicBuilder { user_desc: user_description, ..self }
    }

    /// Instruct the builder to create a `Client Configuration` characteristic descriptor
    /// upon building the characteristic unless the value of `client_cfg` is `None`.
    pub fn set_client_configuration(self, client_cfg: Option<Vec<ClientConfiguration>>) -> (r: Self)
        ensures
            r.spec_adder() == self.spec_adder(),
            r.spec_characteristic() == (CharacteristicView {
                client_configuration: match client_cfg { Some(c) => Some(c@), None => None },
                ..self.spec_characteristic()
            }),
    {
        CharacteristicBuilder { client_cfg, ..self }
    }

    /// Instruct the builder to create a `Server Configuration` characteristic descriptor
    /// upon building the characteristic unless the value of `server_cfg` is `None`.
    pub fn set_server_configuration(self, server_cfg: Option<Vec<ServerConfiguration>>) -> (r: Self)
        ensures
            r.spec_adder() == self.spec_adder(),
            r.spec_characteristic() == (CharacteristicView {
                server_configuration: match server_cfg { Some(c) => Some(c@), None => None },
                ..self.spec_characteristic()
            }),
    {
        CharacteristicBuilder { server_cfg, ..self }
    }

    /// Finish constructing the characteristic
    ///
    /// The declaration, the value and the descriptors are added to the server, and the
    /// `CharacteristicAdder` that was used to make this builder is returned. The end of the
    /// group of the service is then the last attribute added.
    pub fn finish_characteristic(self) -> (r: CharacteristicAdder<'a>)
        requires
            ({
                let attributes = (*self.spec_adder().spec_service_builder().spec_server_builder())@.attributes;
                attributes.len() + spec_characteristic_attributes(self.spec_characteristic(), attributes.len() as int).len()
                    <= 0x1_0000
            }),
        ensures
            ({
                let before = (*self.spec_adder().spec_service_builder().spec_server_builder())@;
                let after = (*r.spec_service_builder().spec_server_builder())@;
                let added = spec_characteristic_attributes(self.spec_characteristic(), before.attributes.len() as int);
                &&& spec_same_service(r.spec_service_builder(), self.spec_adder().spec_service_builder())
                &&& after.primary_services == before.primary_services
                &&& spec_appended(before.attributes, after.attributes, added)
                &&& r.spec_end_group_handle() == before.attributes.len() + added.len() - 1
            }),
            *final(r.spec_service_builder().spec_server_builder())
                == *final(self.spec_adder().spec_service_builder().spec_server_builder()),
    {
        let ghost c = self.spec_characteristic();
        let CharacteristicBuilder {
            characteristic_adder, properties, uuid, value, value_permissions, ext_prop, user_desc, client_cfg, server_cfg,
        } = self;
        let mut adder = characteristic_adder;
        let ghost a0 = adder.service_builder.server_builder@.attributes;
        let ghost n0 = a0.len() as int;
        let ghost fixed = spec_characteristic_attributes(c, n0).subrange(0, 2);
        let ghost e_part = match c.extended_properties {
            Some(e) => seq![AttributeSpec { ty: spec_assigned(ExtendedProperties::TYPE), permissions: spec_read_only(),
                bytes: <Vec<ExtendedProperties> as TransferFormat>::serialize_spec(e),
                kind: crate::att::ValueKind::ExtendedProperties }],
            None => Seq::<AttributeSpec>::empty(),
        };
        let ghost d_part = match c.user_description {
            Some(d) => seq![AttributeSpec { ty: spec_assigned(UserDescription::TYPE), permissions: d.1,
                bytes: <String as TransferFormat>::serialize_spec(d.0), kind: crate::att::ValueKind::Text }],
            None => Seq::<AttributeSpec>::empty(),
        };
        let ghost c_part = match c.client_configuration {
            Some(cfg) => seq![AttributeSpec { ty: spec_assigned(ClientConfiguration::TYPE), permissions: spec_configuration_permissions(),
                bytes: <Vec<ClientConfiguration> as TransferFormat>::serialize_spec(cfg),
                kind: crate::att::ValueKind::ClientConfiguration }],
            None => Seq::<AttributeSpec>::empty(),
        };
        let ghost s_part = match c.server_configuration {
            Some(cfg) => seq![AttributeSpec { ty: spec_assigned(ServerConfiguration::TYPE), permissions: spec_configuration_permissions(),
                bytes: <Vec<ServerConfiguration> as TransferFormat>::serialize_spec(cfg),
                kind: crate::att::ValueKind::ServerConfiguration }],
            None => Seq::<AttributeSpec>::empty(),
        };
        assert(spec_characteristic_attributes(c, n0) =~= fixed + e_part + d_part + c_part + s_part);
        let value_handle = adder.service_builder.server_builder.attributes.next_handle() + 1;
        let declaration = Declaration { properties, value_handle, uuid };
        push_attribute(&mut adder.service_builder.server_builder.attributes, UUID::from_u16(Declaration::TYPE),
            read_only(), declaration);
        let ghost a1 = adder.service_builder.server_builder@.attributes;
        let mut last = push_attribute(&mut adder.service_builder.server_builder.attributes, uuid, value_permissions, value);
        let ghost acc = fixed;
        proof {
            lemma_appended_trans(a0, a1, adder.service_builder.server_builder@.attributes, fixed.subrange(0, 1), fixed.subrange(1, 2));
            assert(fixed.subrange(0, 1) + fixed.subrange(1, 2) =~= fixed);
        }
        match ext_prop {
            Some(ext) => {
                let ghost before = adder.service_builder.server_builder@.attributes;
                last = push_attribute(&mut adder.service_builder.server_builder.attributes,
                    UUID::from_u16(ExtendedProperties::TYPE), read_only(), ext);
                proof {
                    lemma_appended_trans(a0, before, adder.service_builder.server_builder@.attributes, acc, e_part);
                    acc = acc + e_part;
                }
            },
            None => {
                proof { assert(acc + e_part =~= acc); acc = acc + e_part; }
            },
        }
        match user_desc {
            Some(desc) => {
                let ghost before = adder.service_builder.server_builder@.attributes;
                last = push_attribute(&mut adder.service_builder.server_builder.attributes,
                    UUID::from_u16(UserDescription::TYPE), desc.permissions, desc.value);
                proof {
                    lemma_appended_trans(a0, before, adder.service_builder.server_builder@.attributes, acc, d_part);
                    acc = acc + d_part;
                }
            },
            None => {
                proof { assert(acc + d_part =~= acc); acc = acc + d_part; }
            },
        }
        match client_cfg {
            Some(cfg) => {
                let ghost before = adder.service_builder.server_builder@.attributes;
                last = push_attribute(&mut adder.service_builder.server_builder.attributes,
                    UUID::from_u16(ClientConfiguration::TYPE), configuration_permissions(), cfg);
                proof {
                    lemma_appended_trans(a0, before, adder.service_builder.server_builder@.attributes, acc, c_part);
                    acc = acc + c_part;
                }
            },
            None => {
                proof { assert(acc + c_part =~= acc); acc = acc + c_part; }
            },
        }
        match server_cfg {
            Some(cfg) => {
                let ghost before = adder.service_builder.server_builder@.attributes;
                last = push_attribute(&mut adder.service_builder.server_builder.attributes,
                    UUID::from_u16(ServerConfiguration::TYPE), configuration_permissions(), cfg);
                proof {
                    lemma_appended_trans(a0, before, adder.service_builder.server_builder@.attributes, acc, s_part);
                    acc = acc + s_part;
                }
            },
            None => {
                proof { assert(acc + s_part =~= acc); acc = acc + s_part; }
            },
        }
        assert(acc =~= spec_characteristic_attributes(c, n0));
        adder.end_group_handle = last;
        adder
    }
}

} // verus!
