//! The Generic Attribute Profile
use vstd::prelude::*;
use crate::att::{self, TransferFormat, TransferFormatError};
use crate::att::le::{le_value, le_bytes};
use crate::att::pdu::{u16_bytes, u16_of, concat};

pub mod characteristic;

verus! {

/// The attribute value of an include definition
#[derive(Clone, Copy, PartialEq, Eq, Debug, Structural)]
pub struct ServiceInclude {
    pub service_handle: u16,
    pub end_group_handle: u16,
    pub short_service_type: Option<u16>,
}

impl View for ServiceInclude {
    type V = ServiceInclude;

    open spec fn view(&self) -> ServiceInclude {
        *self
    }
}

impl ServiceInclude {
    pub const TYPE: u16 = 0x2802;
}

impl TransferFormat for ServiceInclude {
    open spec fn parse_spec(raw: Seq<u8>) -> Option<ServiceInclude> {
        if raw.len() == 6 {
            Some(ServiceInclude {
                service_handle: le_value(raw.subrange(0, 2)) as u16,
                end_group_handle: le_value(raw.subrange(2, 4)) as u16,
                short_service_type: Some(le_value(raw.subrange(4, 6)) as u16),
            })
        } else {
            None
        }
    }

    open spec fn serialize_spec(v: ServiceInclude) -> Seq<u8> {
        le_bytes(v.service_handle as nat, 2) + le_bytes(v.end_group_handle as nat, 2) + match v.short_service_type {
            Some(t) => le_bytes(t as nat, 2),
            None => Seq::empty(),
        }
    }

    fn from(raw: &[u8]) -> (r: Result<ServiceInclude, TransferFormatError>) {
        if raw.len() >= 6 {
            let service_handle = u16_of(vstd::slice::slice_subrange(raw, 0, 2));
            let end_group_handle = u16_of(vstd::slice::slice_subrange(raw, 2, 4));
            // Only 16 bit Bluetooth UUIDs are included with an include definition
            if raw.len() == 6 {
                let short = u16_of(vstd::slice::slice_subrange(raw, 4, 6));
                Ok(ServiceInclude { service_handle, end_group_handle, short_service_type: Some(short) })
            } else {
                Err(TransferFormatError::from_message("Invalid short service type in ServiceInclude"))
            }
        } else {
            Err(TransferFormatError::bad_min_size("ServiceInclude", 6, raw.len()))
        }
    }

    fn into(&self) -> (r: Vec<u8>) {
        let v = concat(u16_bytes(self.service_handle), u16_bytes(self.end_group_handle));
        match self.short_service_type {
            Some(t) => concat(v, u16_bytes(t)),
            None => v,
        }
    }
}

/// An include definition with the short form of its service type is read back from its
/// transfer format.
///
/// One without a short service type has a transfer format of four bytes, which is not read
/// back.
pub proof fn lemma_service_include_roundtrip(v: ServiceInclude)
    requires
        v.short_service_type is Some,
    ensures
        ServiceInclude::parse_spec(ServiceInclude::serialize_spec(v)) == Some(v),
{
    crate::att::le::lemma_pow256_values();
    crate::att::le::lemma_le_roundtrip(v.service_handle as nat, 2);
    crate::att::le::lemma_le_roundtrip(v.end_group_handle as nat, 2);
    crate::att::le::lemma_le_roundtrip(v.short_service_type.unwrap() as nat, 2);
    let raw = ServiceInclude::serialize_spec(v);
    assert(raw.subrange(0, 2) =~= le_bytes(v.service_handle as nat, 2));
    assert(raw.subrange(2, 4) =~= le_bytes(v.end_group_handle as nat, 2));
    assert(raw.subrange(4, 6) =~= le_bytes(v.short_service_type.unwrap() as nat, 2));
}

} // verus!

verus! {

use crate::att::{Attribute, AttributeView, AttributePermissions, IntoAttributeValue, ValueKind, spec_sorted_set};
use crate::att::server::ServerAttributes;
use crate::uuid::{UUID, spec_uuid_of_short};
use crate::att::{AttributeRestriction, EncryptionKeySize, Error as AttError};
use crate::att::pdu;
use crate::att::server::{Server as AttServer, ServerView, spec_mtu, spec_validate_permissions};
use crate::att::server::response::{spec_error_pdu, error_pdu, spec_min};
use crate::gap::{ConnectionChannel, spec_sent_att};
use crate::att::client::ClientPduName;
use crate::att::server::{spec_process_request, spec_parse_acl_packet};
use crate::l2cap::AclData;

/// The permission of the attributes that define services and their includes: read only
pub open spec fn spec_read_only() -> Seq<AttributePermissions> {
    seq![AttributePermissions::Read]
}

/// The permission of the attributes that define services and their includes: read only
pub(crate) fn read_only() -> (r: Vec<AttributePermissions>)
    ensures
        r@ == spec_read_only(),
{
    let mut r: Vec<AttributePermissions> = Vec::new();
    r.push(AttributePermissions::Read);
    assert(r@ =~= spec_read_only());
    r
}

/// The type of a primary service definition
pub const PRIMARY_SERVICE_TYPE: u16 = 0x2800;

/// The type of a secondary service definition
pub const SECONDARY_SERVICE_TYPE: u16 = 0x2801;

/// The 128 bit value of the 16 bit assigned number `v`
pub open spec fn spec_assigned(v: u16) -> u128 {
    spec_uuid_of_short(v as int) as u128
}

/// What an attribute to be added is: its type, its permissions, the transfer format of its
/// value and the kind of its value
pub struct AttributeSpec {
    pub ty: u128,
    pub permissions: Seq<AttributePermissions>,
    pub bytes: Seq<u8>,
    pub kind: ValueKind,
}

/// Whether `a` is the attribute `spec` at `handle`: its permissions are those of `spec`, in
/// order of rank and without duplicates
pub open spec fn spec_attribute_is(a: AttributeView, spec: AttributeSpec, handle: int) -> bool {
    &&& a.ty == spec.ty
    &&& a.handle == Some(handle as u16)
    &&& spec_sorted_set(a.permissions)
    &&& forall|p: AttributePermissions| a.permissions.contains(p) <==> spec.permissions.contains(p)
    &&& a.bytes == spec.bytes
    &&& a.kind == spec.kind
}

/// Whether `new` is `old` followed by the attributes `added`
pub open spec fn spec_appended(old: Seq<AttributeView>, new: Seq<AttributeView>, added: Seq<AttributeSpec>) -> bool {
    &&& new.len() == old.len() + added.len()
    &&& new.subrange(0, old.len() as int) == old
    &&& forall|i: int| 0 <= i < added.len() ==> spec_attribute_is(#[trigger] new[old.len() + i], added[i], old.len() + i)
}

/// Appending attributes one list after another is appending both lists
pub proof fn lemma_appended_trans(a: Seq<AttributeView>, b: Seq<AttributeView>, c: Seq<AttributeView>,
    x: Seq<AttributeSpec>, y: Seq<AttributeSpec>)
    requires
        spec_appended(a, b, x),
        spec_appended(b, c, y),
    ensures
        spec_appended(a, c, x + y),
{
    assert(c.subrange(0, a.len() as int) =~= b.subrange(0, a.len() as int));
    assert forall|i: int| 0 <= i < (x + y).len() implies spec_attribute_is(#[trigger] c[a.len() + i], (x + y)[i], a.len() + i) by {
        if i < x.len() {
            assert(c[a.len() + i] == c.subrange(0, b.len() as int)[a.len() + i]);
            assert(b[a.len() + i] == c[a.len() + i]);
        } else {
            assert(c[b.len() + (i - x.len())] == c[a.len() + i]);
        }
    }
}

/// Push an attribute made of `ty`, `permissions` and `value`; its handle is returned
pub(crate) fn push_attribute<V: IntoAttributeValue>(attributes: &mut ServerAttributes, ty: UUID,
    permissions: Vec<AttributePermissions>, value: V) -> (r: u16)
    requires
        old(attributes)@.len() <= 0xFFFF,
    ensures
        r == old(attributes)@.len(),
        spec_appended(old(attributes)@, final(attributes)@,
            seq![AttributeSpec { ty: ty@, permissions: permissions@, bytes: V::serialize_spec(value@),
                kind: V::spec_value_kind() }]),
{
    let ghost spec = AttributeSpec { ty: ty@, permissions: permissions@, bytes: V::serialize_spec(value@),
        kind: V::spec_value_kind() };
    let ghost n = old(attributes)@.len() as int;
    let attribute = Attribute::new(ty, permissions, value);
    let r = attributes.push(attribute);
    proof {
        assert(attributes@.subrange(0, n) =~= old(attributes)@);
        assert(spec_attribute_is(attributes@[n + 0], seq![spec][0], n + 0));
    }
    r
}

/// The view of a service
pub struct ServiceView {
    pub service_handle: u16,
    pub end_group_handle: u16,
    pub service_type: u128,
}

/// A service of a GATT server: the handle of its definition, the handle of its last
/// attribute, and its type
#[derive(Clone, Copy, Debug)]
pub struct Service {
    /// The handle of the Service declaration attribute
    service_handle: u16,
    /// The handle of the last attribute in the service
    end_group_handle: u16,
    /// The UUID (also known as the attribute type) of the service. This is also the attribute
    /// value in the service definition.
    service_type: UUID,
}

impl View for Service {
    type V = ServiceView;

    closed spec fn view(&self) -> ServiceView {
        ServiceView { service_handle: self.service_handle, end_group_handle: self.end_group_handle, service_type: self.service_type@ }
    }
}

impl Service {
    fn new(service_handle: u16, end_group_handle: u16, service_type: UUID) -> (r: Service)
        ensures
            r@ == (ServiceView { service_handle, end_group_handle, service_type: service_type@ }),
    {
        Service { service_handle, end_group_handle, service_type }
    }

    /// The handle of the service definition
    pub fn service_handle(&self) -> (r: u16)
        ensures
            r == self@.service_handle,
    {
        self.service_handle
    }

    /// The handle of the last attribute of the service
    pub fn end_group_handle(&self) -> (r: u16)
        ensures
            r == self@.end_group_handle,
    {
        self.end_group_handle
    }

    /// The type of the service
    pub fn service_type(&self) -> (r: UUID)
        ensures
            r@ == self@.service_type,
    {
        self.service_type
    }
}

/// The views of services
pub open spec fn spec_service_views(s: Seq<Service>) -> Seq<ServiceView> {
    s.map_values(|x: Service| x@)
}

/// The view of a server builder: the primary services and the attributes
pub struct ServerBuilderView {
    pub primary_services: Seq<ServiceView>,
    pub attributes: Seq<AttributeView>,
}

/// Constructor of a GATT server
///
/// This will construct a GATT server for use with BR/EDR/LE bluetooth operation.
pub struct ServerBuilder {
    primary_services: Vec<Service>,
    attributes: ServerAttributes,
}

impl View for ServerBuilder {
    type V = ServerBuilderView;

    closed spec fn view(&self) -> ServerBuilderView {
        ServerBuilderView { primary_services: spec_service_views(self.primary_services@), attributes: self.attributes@ }
    }
}

impl ServerBuilder {
    /// Construct an empty `ServerBuilder`
    ///
    /// This creates a `ServerBuilder` without the specification required GAP service: it holds
    /// only the reserved handle 0.
    pub fn new_empty() -> (r: ServerBuilder)
        ensures
            r@.primary_services == Seq::<ServiceView>::empty(),
            r@.attributes == seq![crate::att::spec_reserved_attribute()],
    {
        let r = ServerBuilder { primary_services: Vec::new(), attributes: ServerAttributes::new() };
        assert(r@.primary_services =~= Seq::<ServiceView>::empty());
        r
    }

    /// Create a service constructor
    pub fn new_service_constructor<'a>(&'a mut self, service_type: UUID, is_primary: bool) -> (r: ServiceBuilder<'a>)
        requires
            old(self)@.attributes.len() <= 0xFFFF,
        ensures
            r.spec_handle() == old(self)@.attributes.len(),
            r.spec_service_type() == service_type@,
            r.spec_is_primary() == is_primary,
            (*r.spec_server_builder())@.primary_services == old(self)@.primary_services,
            spec_appended(old(self)@.attributes, (*r.spec_server_builder())@.attributes,
                seq![spec_service_definition(service_type@, is_primary)]),
            *final(self) == *final(r.spec_server_builder()),
    {
        ServiceBuilder::new(self, service_type, is_primary)
    }

    fn add_primary_service(&mut self, service: Service)
        ensures
            final(self)@ == (ServerBuilderView {
                primary_services: old(self)@.primary_services.push(service@),
                ..old(self)@
            }),
    {
        self.primary_services.push(service);
        assert(spec_service_views(self.primary_services@) =~= old(self)@.primary_services.push(service@));
    }
}

/// The attribute that defines a service of type `service_type`
pub open spec fn spec_service_definition(service_type: u128, is_primary: bool) -> AttributeSpec {
    AttributeSpec {
        ty: spec_assigned(if is_primary { PRIMARY_SERVICE_TYPE } else { SECONDARY_SERVICE_TYPE }),
        permissions: spec_read_only(),
        bytes: <UUID as TransferFormat>::serialize_spec(service_type),
        kind: ValueKind::Uuid,
    }
}

/// The builder of a service
pub struct ServiceBuilder<'a> {
    service_type: UUID,
    /// Whether the service is a primary service
    is_primary: bool,
    handle: u16,
    server_builder: &'a mut ServerBuilder,
}

impl<'a> ServiceBuilder<'a> {
    pub closed spec fn spec_service_type(&self) -> u128 {
        self.service_type@
    }

    pub closed spec fn spec_is_primary(&self) -> bool {
        self.is_primary
    }

    pub closed spec fn spec_handle(&self) -> u16 {
        self.handle
    }

    pub closed spec fn spec_server_builder(&self) -> &'a mut ServerBuilder {
        self.server_builder
    }

    fn new(server_builder: &'a mut ServerBuilder, service_type: UUID, is_primary: bool) -> (r: ServiceBuilder<'a>)
        requires
            old(server_builder)@.attributes.len() <= 0xFFFF,
        ensures
            r.spec_handle() == old(server_builder)@.attributes.len(),
            r.spec_service_type() == service_type@,
            r.spec_is_primary() == is_primary,
            (*r.spec_server_builder())@.primary_services == old(server_builder)@.primary_services,
            spec_appended(old(server_builder)@.attributes, (*r.spec_server_builder())@.attributes,
                seq![spec_service_definition(service_type@, is_primary)]),
            *final(server_builder) == *final(r.spec_server_builder()),
    {
        let ty = if is_primary { UUID::from_u16(PRIMARY_SERVICE_TYPE) } else { UUID::from_u16(SECONDARY_SERVICE_TYPE) };
        let handle = push_attribute(&mut server_builder.attributes, ty, read_only(), service_type);
        ServiceBuilder { service_type, is_primary, handle, server_builder }
    }
}

/// The attribute value of an include definition of `service`
pub open spec fn spec_include_bytes(service: ServiceView) -> Seq<u8> {
    <ServiceInclude as TransferFormat>::serialize_spec(ServiceInclude {
        service_handle: service.service_handle,
        end_group_handle: service.end_group_handle,
        short_service_type: crate::uuid::spec_short_u16(service.service_type),
    })
}

/// The attribute of an include definition of `service`
pub open spec fn spec_include_definition(service: ServiceView) -> AttributeSpec {
    AttributeSpec { ty: spec_assigned(ServiceInclude::TYPE), permissions: spec_read_only(), bytes: spec_include_bytes(service),
        kind: ValueKind::ServiceInclude }
}

/// Whether two service builders build the same service
pub open spec fn spec_same_service(a: ServiceBuilder, b: ServiceBuilder) -> bool {
    &&& a.spec_handle() == b.spec_handle()
    &&& a.spec_service_type() == b.spec_service_type()
    &&& a.spec_is_primary() == b.spec_is_primary()
}

/// The server builder after a service is made: a primary service is added to the primary
/// services
pub open spec fn spec_with_service(b: ServerBuilderView, service: ServiceView, is_primary: bool) -> ServerBuilderView {
    if is_primary {
        ServerBuilderView { primary_services: b.primary_services.push(service), ..b }
    } else {
        b
    }
}

/// Finishing a service keeps the attributes; a primary service is added at the end of the
/// primary services, and a secondary service leaves them as they were, so it is never listed
/// as a primary service.
pub proof fn lemma_only_primary_services_listed(b: ServerBuilderView, service: ServiceView, is_primary: bool)
    ensures
        spec_with_service(b, service, is_primary).attributes == b.attributes,
        !is_primary ==> spec_with_service(b, service, is_primary).primary_services == b.primary_services,
        is_primary ==> spec_with_service(b, service, is_primary).primary_services.len() == b.primary_services.len() + 1,
        is_primary ==> spec_with_service(b, service, is_primary).primary_services.last() == service,
        is_primary ==> spec_with_service(b, service, is_primary).primary_services.drop_last() == b.primary_services,
{
    if is_primary {
        assert(b.primary_services.push(service).drop_last() =~= b.primary_services);
    }
}

impl<'a> ServiceBuilder<'a> {
    /// Start including other services
    ///
    /// This converts a `ServiceBuilder` into an `IncludesAdder`, which adds include
    /// definitions for other services. Afterwards an `IncludesAdder` can be further converted
    /// into a `CharacteristicAdder`.
    pub fn into_includes_adder(self) -> (r: IncludesAdder<'a>)
        ensures
            r.spec_service_builder() == self,
            r.spec_end_group_handle() == self.spec_handle(),
    {
        let handle = self.handle;
        IncludesAdder { service_builder: self, end_group_handle: handle }
    }

    /// Start adding characteristics
    ///
    /// This converts a `ServiceBuilder` into a `CharacteristicAdder`, for a service that
    /// includes no other services.
    pub fn into_characteristics_adder(self) -> (r: CharacteristicAdder<'a>)
        ensures
            r.spec_service_builder() == self,
            r.spec_end_group_handle() == self.spec_handle(),
    {
        let handle = self.handle;
        CharacteristicAdder { service_builder: self, end_group_handle: handle }
    }

    /// Create an empty service
    ///
    /// The service contains no data other than its definition, so both its handle and its end
    /// group handle are the handle of the definition.
    pub fn make_empty(self) -> (r: Service)
        ensures
            r@ == (ServiceView { service_handle: self.spec_handle(), end_group_handle: self.spec_handle(),
                service_type: self.spec_service_type() }),
            (*final(self.spec_server_builder()))@ == spec_with_service((*old(self.spec_server_builder()))@, r@, self.spec_is_primary()),
    {
        let handle = self.handle;
        let mut this = self;
        this.make_service(handle)
    }

    fn make_service(&mut self, end_service_handle: u16) -> (r: Service)
        ensures
            r@ == (ServiceView { service_handle: old(self).spec_handle(), end_group_handle: end_service_handle,
                service_type: old(self).spec_service_type() }),
            spec_same_service(*final(self), *old(self)),
            (*final(self).spec_server_builder())@ == spec_with_service((*old(self).spec_server_builder())@, r@, old(self).spec_is_primary()),
            *final(final(self).spec_server_builder()) == *final(old(self).spec_server_builder()),
    {
        let service = Service::new(self.handle, end_service_handle, self.service_type);
        if self.is_primary {
            self.server_builder.add_primary_service(service);
        }
        service
    }
}

/// Add include definitions to a service
///
/// The service that contains the include definitions is the one that was initially
/// constructed with `ServiceBuilder`.
pub struct IncludesAdder<'a> {
    service_builder: ServiceBuilder<'a>,
    end_group_handle: u16,
}

impl<'a> IncludesAdder<'a> {
    pub closed spec fn spec_service_builder(&self) -> ServiceBuilder<'a> {
        self.service_builder
    }

    pub closed spec fn spec_end_group_handle(&self) -> u16 {
        self.end_group_handle
    }

    /// Add a service to include
    pub fn include_service(self, service: &Service) -> (r: IncludesAdder<'a>)
        requires
            (*self.spec_service_builder().spec_server_builder())@.attributes.len() <= 0xFFFF,
        ensures
            spec_same_service(r.spec_service_builder(), self.spec_service_builder()),
            r.spec_end_group_handle() == (*self.spec_service_builder().spec_server_builder())@.attributes.len(),
            (*r.spec_service_builder().spec_server_builder())@.primary_services
                == (*self.spec_service_builder().spec_server_builder())@.primary_services,
            spec_appended((*self.spec_service_builder().spec_server_builder())@.attributes,
                (*r.spec_service_builder().spec_server_builder())@.attributes,
                seq![spec_include_definition(service@)]),
            *final(r.spec_service_builder().spec_server_builder()) == *final(self.spec_service_builder().spec_server_builder()),
    {
        let definition = ServiceInclude {
            service_handle: service.service_handle,
            end_group_handle: service.end_group_handle,
            short_service_type: service.service_type.try_into_u16(),
        };
        let mut this = self;
        let handle = push_attribute(&mut this.service_builder.server_builder.attributes,
            UUID::from_u16(ServiceInclude::TYPE), read_only(), definition);
        this.end_group_handle = handle;
        this
    }

    /// Convert to a `CharacteristicAdder`
    pub fn into_characteristics_adder(self) -> (r: CharacteristicAdder<'a>)
        ensures
            r.spec_service_builder() == self.spec_service_builder(),
            r.spec_end_group_handle() == self.spec_end_group_handle(),
    {
        CharacteristicAdder { service_builder: self.service_builder, end_group_handle: self.end_group_handle }
    }

    /// Finish the service
    ///
    /// The service has the service definition and the service includes (if any), and no
    /// characteristics.
    pub fn finish_service(self) -> (r: Service)
        ensures
            r@ == (ServiceView { service_handle: self.spec_service_builder().spec_handle(),
                end_group_handle: self.spec_end_group_handle(), service_type: self.spec_service_builder().spec_service_type() }),
            (*final(self.spec_service_builder().spec_server_builder()))@
                == spec_with_service((*old(self.spec_service_builder().spec_server_builder()))@, r@,
                    self.spec_service_builder().spec_is_primary()),
    {
        let end = self.end_group_handle;
        let mut service_builder = self.service_builder;
        service_builder.make_service(end)
    }
}

/// Add characteristics to a service
///
/// The service that contains the characteristics is the one that was initially constructed
/// with `ServiceBuilder`.
pub struct CharacteristicAdder<'a> {
    service_builder: ServiceBuilder<'a>,
    end_group_handle: u16,
}

impl<'a> CharacteristicAdder<'a> {
    pub closed spec fn spec_service_builder(&self) -> ServiceBuilder<'a> {
        self.service_builder
    }

    /// Start building a characteristic of type `uuid` with the value `value`
    pub fn build_characteristic<V: IntoAttributeValue>(self, properties: Vec<characteristic::Properties>, uuid: UUID,
        value: Box<V>, value_permissions: Vec<AttributePermissions>) -> (r: characteristic::CharacteristicBuilder<'a, V>)
        ensures
            r.spec_adder() == self,
            r.spec_characteristic() == (characteristic::CharacteristicView {
                properties: properties@,
                uuid: uuid@,
                value_permissions: value_permissions@,
                value_bytes: <Box<V> as TransferFormat>::serialize_spec(value@),
                value_kind: V::spec_value_kind(),
                extended_properties: None,
                user_description: None,
                client_configuration: None,
                server_configuration: None,
            }),
    {
        characteristic::CharacteristicBuilder::new(self, properties, uuid, value, value_permissions)
    }

    pub closed spec fn spec_end_group_handle(&self) -> u16 {
        self.end_group_handle
    }

    /// Finish the service
    pub fn finish_service(self) -> (r: Service)
        ensures
            r@ == (ServiceView { service_handle: self.spec_service_builder().spec_handle(),
                end_group_handle: self.spec_end_group_handle(), service_type: self.spec_service_builder().spec_service_type() }),
            (*final(self.spec_service_builder().spec_server_builder()))@
                == spec_with_service((*old(self.spec_service_builder().spec_server_builder()))@, r@,
                    self.spec_service_builder().spec_is_primary()),
    {
        let end = self.end_group_handle;
        let mut service_builder = self.service_builder;
        service_builder.make_service(end)
    }
}

/// Whether `v` holds the GAP service of the device name `device_name` and the appearance
/// `appearance` and nothing else: the service at handle 1, its attributes after the reserved
/// attribute
pub open spec fn spec_is_gap_builder(v: ServerBuilderView, device_name: Seq<char>, appearance: u16) -> bool {
    &&& v.primary_services == seq![ServiceView {
        service_handle: 1,
        end_group_handle: 5,
        service_type: spec_assigned(GapServiceBuilder::GAP_SERVICE_TYPE),
    }]
    &&& spec_appended(seq![crate::att::spec_reserved_attribute()], v.attributes, spec_gap_attributes(device_name, appearance))
}

/// The attributes that follow other attributes are determined by what they were made of.
pub proof fn lemma_appended_unique(old: Seq<AttributeView>, a: Seq<AttributeView>, b: Seq<AttributeView>,
    added: Seq<AttributeSpec>)
    requires
        spec_appended(old, a, added),
        spec_appended(old, b, added),
    ensures
        a == b,
{
    assert forall|i: int| 0 <= i < a.len() implies a[i] == b[i] by {
        if i < old.len() {
            assert(a[i] == a.subrange(0, old.len() as int)[i]);
            assert(b[i] == b.subrange(0, old.len() as int)[i]);
        } else {
            let k = i - old.len();
            assert(spec_attribute_is(a[old.len() + k], added[k], old.len() + k));
            assert(spec_attribute_is(b[old.len() + k], added[k], old.len() + k));
            crate::att::lemma_sorted_set_unique(a[i].permissions, b[i].permissions);
        }
    }
    assert(a =~= b);
}

/// A builder of the GAP service is determined by its device name and appearance; so the server
/// builder made by `ServerBuilder::new` is the one made by `ServerBuilder::new_with_gap` of the
/// GAP service builder without a device name or an appearance.
pub proof fn lemma_gap_builder_unique(a: ServerBuilderView, b: ServerBuilderView, device_name: Seq<char>,
    appearance: u16)
    requires
        spec_is_gap_builder(a, device_name, appearance),
        spec_is_gap_builder(b, device_name, appearance),
    ensures
        a == b,
{
    lemma_appended_unique(seq![crate::att::spec_reserved_attribute()], a.attributes, b.attributes,
        spec_gap_attributes(device_name, appearance));
}

/// The GAP service: a primary service with the characteristics *Device Name* and
/// *Appearance*
pub open spec fn spec_gap_attributes(device_name: Seq<char>, appearance: u16) -> Seq<AttributeSpec> {
    seq![spec_service_definition(spec_assigned(GapServiceBuilder::GAP_SERVICE_TYPE), true)]
        + characteristic::spec_characteristic_attributes(spec_gap_characteristic(
            spec_assigned(GapServiceBuilder::DEVICE_NAME_TYPE), <String as TransferFormat>::serialize_spec(device_name),
            ValueKind::Text), 2)
        + characteristic::spec_characteristic_attributes(spec_gap_characteristic(
            spec_assigned(GapServiceBuilder::APPEARANCE_TYPE), <u16 as TransferFormat>::serialize_spec(appearance),
            ValueKind::U16), 4)
}

/// A characteristic of the GAP service: readable, with no descriptors
pub open spec fn spec_gap_characteristic(uuid: u128, value_bytes: Seq<u8>, value_kind: ValueKind)
    -> characteristic::CharacteristicView
{
    characteristic::CharacteristicView {
        properties: seq![characteristic::Properties::Read],
        uuid,
        value_permissions: spec_read_only(),
        value_bytes,
        value_kind,
        extended_properties: None,
        user_description: None,
        client_configuration: None,
        server_configuration: None,
    }
}

/// The builder of the GAP service, the service that every GATT server holds
pub struct GapServiceBuilder {
    server_builder: ServerBuilder,
}

/// The properties of the characteristics of the GAP service
fn read_property() -> (r: Vec<characteristic::Properties>)
    ensures
        r@ == seq![characteristic::Properties::Read],
{
    let mut v: Vec<characteristic::Properties> = Vec::new();
    v.push(characteristic::Properties::Read);
    assert(v@ =~= seq![characteristic::Properties::Read]);
    v
}

impl GapServiceBuilder {
    /// Service UUID
    pub const GAP_SERVICE_TYPE: u16 = 0x1800;

    /// The type of the device name characteristic
    pub const DEVICE_NAME_TYPE: u16 = 0x2a00;

    /// The type of the appearance characteristic
    pub const APPEARANCE_TYPE: u16 = 0x2a01;

    /// Default Appearance
    pub const UNKNOWN_APPERANCE: u16 = 0;

    /// The server builder that holds the GAP service
    pub closed spec fn spec_server_builder(&self) -> ServerBuilder {
        self.server_builder
    }

    /// Make a new `GapServiceBuilder`
    ///
    /// The `device_name` is a readable string for the client. The appearance is an assigned
    /// number to indicate to the client the external appearance of the device. Both these
    /// fields are optional with `device_name` defaulting to an empty string and 'unknown
    /// appearance'.
    pub fn new(device_name: Option<&str>, apperance: Option<u16>) -> (r: GapServiceBuilder)
        ensures
            spec_is_gap_builder(r.spec_server_builder()@,
                match device_name { Some(n) => n@, None => ""@ },
                match apperance { Some(a) => a, None => Self::UNKNOWN_APPERANCE },
            ),
    {
        let device_name_val: String = match device_name {
            Some(name) => name.to_owned(),
            None => "".to_owned(),
        };
        let apperance_val: u16 = match apperance {
            Some(appr) => appr,
            None => Self::UNKNOWN_APPERANCE,
        };
        let ghost name_view = device_name_val@;
        let mut server_builder = ServerBuilder::new_empty();
        let ghost a0 = server_builder@.attributes;
        let service_builder = server_builder.new_service_constructor(UUID::from_u16(Self::GAP_SERVICE_TYPE), true);
        let ghost a1 = (*service_builder.spec_server_builder())@.attributes;
        let adder = service_builder.into_characteristics_adder();
        let name_builder = adder.build_characteristic(read_property(), UUID::from_u16(Self::DEVICE_NAME_TYPE),
            Box::new(device_name_val), read_only());
        let adder = name_builder.finish_characteristic();
        let ghost a2 = (*adder.spec_service_builder().spec_server_builder())@.attributes;
        let apperance_builder = adder.build_characteristic(read_property(), UUID::from_u16(Self::APPEARANCE_TYPE),
            Box::new(apperance_val), read_only());
        let adder = apperance_builder.finish_characteristic();
        let ghost a3 = (*adder.spec_service_builder().spec_server_builder())@.attributes;
        proof {
            let s1 = seq![spec_service_definition(spec_assigned(Self::GAP_SERVICE_TYPE), true)];
            let s2 = characteristic::spec_characteristic_attributes(spec_gap_characteristic(
                spec_assigned(Self::DEVICE_NAME_TYPE), <String as TransferFormat>::serialize_spec(name_view), ValueKind::Text), 2);
            let s3 = characteristic::spec_characteristic_attributes(spec_gap_characteristic(
                spec_assigned(Self::APPEARANCE_TYPE), <u16 as TransferFormat>::serialize_spec(apperance_val), ValueKind::U16), 4);
            lemma_appended_trans(a0, a1, a2, s1, s2);
            lemma_appended_trans(a0, a2, a3, s1 + s2, s3);
        }
        let service = adder.finish_service();
        proof {
            assert(server_builder@.primary_services =~= seq![service@]);
        }
        GapServiceBuilder { server_builder }
    }
}

impl ServerBuilder {
    /// Construct a new `ServerBuilder`
    ///
    /// This makes a `ServerBuilder` with the basic requirements for a GATT server. This server
    /// only contains a *GAP* service with the characteristics *Device Name* and *Appearance*,
    /// but both of these characteristics contain no information.
    pub fn new() -> (r: ServerBuilder)
        ensures
            spec_is_gap_builder(r@, ""@, GapServiceBuilder::UNKNOWN_APPERANCE),
    {
        GapServiceBuilder::new(Some(""), Some(GapServiceBuilder::UNKNOWN_APPERANCE)).server_builder
    }

    /// Construct a new `ServerBuilder` with the provided GAP service builder
    ///
    /// The provided GAP service builder is used to construct the required GAP service for the
    /// GATT server.
    pub fn new_with_gap(gap: GapServiceBuilder) -> (r: ServerBuilder)
        ensures
            r == gap.spec_server_builder(),
    {
        gap.server_builder
    }
}

/// The permissions that both the client and a service definition must have for the client to
/// read it in a read by group type request
pub open spec fn spec_group_required() -> Seq<AttributePermissions> {
    seq![AttributePermissions::Read]
}

/// The permissions that the client must have to read a service definition that has them in a
/// read by group type request
pub open spec fn spec_group_restricted() -> Seq<AttributePermissions> {
    seq![
        AttributePermissions::Encryption(AttributeRestriction::Read, EncryptionKeySize::Bits128),
        AttributePermissions::Encryption(AttributeRestriction::Read, EncryptionKeySize::Bits192),
        AttributePermissions::Encryption(AttributeRestriction::Read, EncryptionKeySize::Bits256),
        AttributePermissions::Authentication(AttributeRestriction::Read),
        AttributePermissions::Authorization(AttributeRestriction::Write),
    ]
}

/// The error that keeps the client from reading the definition of `service`, if any
pub open spec fn spec_service_permission_error(v: ServerView, service: ServiceView) -> Option<pdu::Error> {
    if service.service_handle >= v.attributes.len() {
        Some(pdu::Error::InvalidHandle)
    } else {
        spec_validate_permissions(v.attributes[service.service_handle as int].permissions, v.given_permissions,
            spec_group_required(), spec_group_restricted())
    }
}

/// The index of the first of the services from `from` on whose handle is at least `start`
pub open spec fn spec_first_service_from(services: Seq<ServiceView>, from: int, start: u16) -> Option<int>
    decreases services.len() - from,
{
    if from >= services.len() {
        None
    } else if services[from].service_handle >= start {
        Some(from)
    } else {
        spec_first_service_from(services, from + 1, start)
    }
}

/// Whether a service is listed in a read by group type response whose range ends at `end`:
/// within the range, of a 16 bit type where the list is of 16 bit types, and readable
pub open spec fn spec_group_listed(v: ServerView, service: ServiceView, end: u16, short: bool) -> bool {
    &&& service.service_handle <= end
    &&& (short ==> crate::uuid::spec_short_u16(service.service_type) is Some)
    &&& spec_service_permission_error(v, service) is None
}

/// The number of services in a row from index `from` that are listed
pub open spec fn spec_group_run(v: ServerView, services: Seq<ServiceView>, from: int, end: u16, short: bool) -> nat
    decreases services.len() - from,
{
    if from >= services.len() || from < 0 {
        0
    } else if spec_group_listed(v, services[from], end, short) {
        1 + spec_group_run(v, services, from + 1, end, short)
    } else {
        0
    }
}

/// The entries of the `n` services from index `from` of a read by group type response
pub open spec fn spec_group_entries(services: Seq<ServiceView>, from: int, n: nat, short: bool) -> Seq<u8>
    decreases n,
{
    if n == 0 {
        Seq::empty()
    } else {
        let s = services[from + n - 1];
        spec_group_entries(services, from, (n - 1) as nat, short)
            + le_bytes(s.service_handle as nat, 2)
            + le_bytes(s.end_group_handle as nat, 2)
            + if short { le_bytes(crate::uuid::spec_short_u16(s.service_type).unwrap() as nat, 2) } else { le_bytes(s.service_type as nat, 16) }
    }
}

/// The answer of a GATT server to a read by group type request whose parameters (the bytes
/// after the opcode) are `payload`; `None` where they are not a valid transfer format
///
/// An invalid range is answered with an invalid handle error, a group type other than the
/// primary service with an unsupported group type error. Otherwise the answer lists the
/// primary services from the first one at or after the start of the range, as long as they
/// lie within the range, have a type of the size of the first one's and may be read, and fit
/// in the MTU (at most 255 bytes of data); an error is sent where none can be listed.
pub open spec fn spec_read_by_group_type_response(services: Seq<ServiceView>, v: ServerView, payload: Seq<u8>)
    -> Option<Seq<u8>>
{
    match <pdu::TypeRequest as TransferFormat>::parse_spec(payload) {
        None => None,
        Some(p) => {
            let op = READ_BY_GROUP_TYPE_REQUEST;
            let range = p.0;
            let sh = range.starting_handle;
            Some(if !pdu::spec_is_valid_handle_range(range) {
                spec_error_pdu(op, sh, pdu::Error::InvalidHandle)
            } else if p.1 != spec_assigned(PRIMARY_SERVICE_TYPE) {
                spec_error_pdu(op, sh, pdu::Error::UnsupportedGroupType)
            } else {
                match spec_first_service_from(services, 0, sh) {
                    None => spec_error_pdu(op, sh, pdu::Error::AttributeNotFound),
                    Some(k) => match spec_service_permission_error(v, services[k]) {
                        Some(e) => spec_error_pdu(op, sh, e),
                        None => {
                            let short = crate::uuid::spec_short_u16(services[k].service_type) is Some;
                            let size: int = if short { 2 } else { 16 };
                            let max_data = if spec_mtu(v) < 255 { spec_mtu(v) as int } else { 255 };
                            let n = spec_min(spec_group_run(v, services, k, range.ending_handle, short) as int,
                                max_data / (4 + size) + 1);
                            if n == 0 {
                                spec_error_pdu(op, sh, pdu::Error::AttributeNotFound)
                            } else {
                                seq![0x11u8, (4 + size) as u8] + spec_group_entries(services, k, n as nat, short)
                            }
                        },
                    },
                }
            })
        },
    }
}

/// The services of `services` in increasing order of their handles
pub open spec fn spec_handles_increasing(services: Seq<ServiceView>) -> bool {
    forall|i: int, j: int| 0 <= i < j < services.len() ==> (#[trigger] services[i]).service_handle < (#[trigger] services[j]).service_handle
}

/// The handle of the entry `i` of the entries of `w` bytes that follow the opcode and the
/// length byte of a read by group type response
pub open spec fn spec_group_entry_handle(r: Seq<u8>, w: int, i: int) -> nat {
    le_value(r.subrange(2 + i * w, 4 + i * w))
}

/// The two bytes at the start of the entry `i` of entries of `w` bytes
spec fn spec_handle_bytes(e: Seq<u8>, w: int, i: int) -> Seq<u8> {
    e.subrange(i * w, i * w + 2)
}

proof fn lemma_first_service_from(services: Seq<ServiceView>, from: int, start: u16)
    requires
        0 <= from,
    ensures
        spec_first_service_from(services, from, start) matches Some(k)
            ==> from <= k < services.len() && services[k].service_handle >= start,
    decreases services.len() - from,
{
    if from < services.len() && services[from].service_handle < start {
        lemma_first_service_from(services, from + 1, start);
    }
}

proof fn lemma_group_run(v: ServerView, services: Seq<ServiceView>, from: int, end: u16, short: bool)
    requires
        0 <= from,
    ensures
        from + spec_group_run(v, services, from, end, short) <= services.len() || spec_group_run(v, services, from, end, short) == 0,
        forall|i: int| 0 <= i < spec_group_run(v, services, from, end, short)
            ==> spec_group_listed(v, #[trigger] services[from + i], end, short),
    decreases services.len() - from,
{
    if from < services.len() && spec_group_listed(v, services[from], end, short) {
        lemma_group_run(v, services, from + 1, end, short);
        assert forall|i: int| 0 <= i < spec_group_run(v, services, from, end, short)
            implies spec_group_listed(v, #[trigger] services[from + i], end, short) by {
            if i > 0 {
                assert(services[from + i] == services[(from + 1) + (i - 1)]);
            }
        }
    }
}

proof fn lemma_group_entries_handles(services: Seq<ServiceView>, from: int, n: nat, short: bool, w: int)
    requires
        w == if short { 6int } else { 20int },
    ensures
        spec_group_entries(services, from, n, short).len() == n * w,
        forall|i: int| 0 <= i < n ==> #[trigger] spec_handle_bytes(spec_group_entries(services, from, n, short), w, i)
            == le_bytes(services[from + i].service_handle as nat, 2),
    decreases n,
{
    if n > 0 {
        let m = (n - 1) as nat;
        lemma_group_entries_handles(services, from, m, short, w);
        let prev = spec_group_entries(services, from, m, short);
        let s = services[from + n - 1];
        let e = spec_group_entries(services, from, n, short);
        crate::att::le::lemma_le_bytes_len(s.service_handle as nat, 2);
        crate::att::le::lemma_le_bytes_len(s.end_group_handle as nat, 2);
        crate::att::le::lemma_le_bytes_len(crate::uuid::spec_short_u16(s.service_type).unwrap() as nat, 2);
        crate::att::le::lemma_le_bytes_len(s.service_type as nat, 16);
        assert(m * w + w == n * w) by (nonlinear_arith) requires m == n - 1;
        assert(e.len() == n * w);
        assert forall|i: int| 0 <= i < n implies #[trigger] spec_handle_bytes(e, w, i)
            == le_bytes(services[from + i].service_handle as nat, 2) by {
            if i < m {
                assert(i * w + w <= m * w) by (nonlinear_arith) requires i + 1 <= m, w > 0;
                assert(e.subrange(i * w, i * w + 2) =~= prev.subrange(i * w, i * w + 2));
                assert(spec_handle_bytes(prev, w, i) == le_bytes(services[from + i].service_handle as nat, 2));
            } else {
                assert(i * w == m * w);
                assert(e.subrange(i * w, i * w + 2) =~= le_bytes(s.service_handle as nat, 2));
            }
        }
    }
}

/// A read by group type response lists only services within the handle range of the request:
/// the handle of every listed service is at most the ending handle, the first one is at least
/// the starting handle, and so are all of them where the services are in the order of their
/// handles (as a server builder adds them).
pub proof fn lemma_group_response_within_range(services: Seq<ServiceView>, v: ServerView, payload: Seq<u8>)
    ensures
        ({
            let resp = spec_read_by_group_type_response(services, v, payload);
            resp is Some && resp.unwrap().len() > 0 && resp.unwrap()[0] == 0x11
        }) ==> ({
            let r = spec_read_by_group_type_response(services, v, payload).unwrap();
            let range = <pdu::TypeRequest as TransferFormat>::parse_spec(payload).unwrap().0;
            let w = r[1] as int;
            &&& w == 6 || w == 20
            &&& r.len() >= 2 + w
            &&& (r.len() - 2) % w == 0
            &&& forall|i: int| 0 <= i < (r.len() - 2) / w ==> #[trigger] spec_group_entry_handle(r, w, i) <= range.ending_handle
            &&& forall|i: int| 0 <= i < (r.len() - 2) / w ==> exists|j: int| 0 <= j < services.len()
                && services[j].service_handle == #[trigger] spec_group_entry_handle(r, w, i)
            &&& range.starting_handle <= spec_group_entry_handle(r, w, 0)
            &&& spec_handles_increasing(services) ==> forall|i: int| 0 <= i < (r.len() - 2) / w
                ==> range.starting_handle <= #[trigger] spec_group_entry_handle(r, w, i)
        }),
{
    if let Some(p) = <pdu::TypeRequest as TransferFormat>::parse_spec(payload) {
        let range = p.0;
        let sh = range.starting_handle;
        if pdu::spec_is_valid_handle_range(range) && p.1 == spec_assigned(PRIMARY_SERVICE_TYPE) {
            lemma_first_service_from(services, 0, sh);
            if let Some(k) = spec_first_service_from(services, 0, sh) {
                if spec_service_permission_error(v, services[k]) is None {
                    let short = crate::uuid::spec_short_u16(services[k].service_type) is Some;
                    let w: int = if short { 6 } else { 20 };
                    let size: int = if short { 2 } else { 16 };
                    let max_data = if spec_mtu(v) < 255 { spec_mtu(v) as int } else { 255 };
                    let run = spec_group_run(v, services, k, range.ending_handle, short);
                    let n = spec_min(run as int, max_data / (4 + size) + 1);
                    if n > 0 {
                        let e = spec_group_entries(services, k, n as nat, short);
                        let r = seq![0x11u8, (4 + size) as u8] + e;
                        lemma_group_run(v, services, k, range.ending_handle, short);
                        lemma_group_entries_handles(services, k, n as nat, short, w);
                        crate::att::le::lemma_pow256_values();
                        assert(r[1] as int == w);
                        assert((r.len() - 2) == n * w);
                        assert((n * w) % w == 0 && (n * w) / w == n) by (nonlinear_arith) requires w > 0, n > 0;
                        assert(n * w >= w) by (nonlinear_arith) requires w > 0, n > 0;
                        assert forall|i: int| 0 <= i < n implies #[trigger] spec_group_entry_handle(r, w, i)
                            == services[k + i].service_handle by {
                            assert(i * w + 2 <= n * w) by (nonlinear_arith) requires i + 1 <= n, w >= 2;
                            assert(r.subrange(2 + i * w, 4 + i * w) =~= spec_handle_bytes(e, w, i));
                            crate::att::le::lemma_le_roundtrip(services[k + i].service_handle as nat, 2);
                        }
                        assert(spec_group_entry_handle(r, w, 0) == services[k + 0].service_handle);
                        assert forall|i: int| 0 <= i < n implies #[trigger] spec_group_entry_handle(r, w, i) <= range.ending_handle
                            && exists|j: int| 0 <= j < services.len() && services[j].service_handle == spec_group_entry_handle(r, w, i) by {
                            assert(spec_group_listed(v, services[k + i], range.ending_handle, short));
                            assert(services[k + i].service_handle == spec_group_entry_handle(r, w, i));
                        }
                        if spec_handles_increasing(services) {
                            assert forall|i: int| 0 <= i < n implies range.starting_handle <= #[trigger] spec_group_entry_handle(r, w, i) by {
                                if i > 0 {
                                    assert(services[k].service_handle < services[k + i].service_handle);
                                }
                            }
                        }
                    }
                }
            }
        }
    }
}

/// The opcode of a read by group type request
pub const READ_BY_GROUP_TYPE_REQUEST: u8 = 0x10;

/// A GATT server: an attribute server and its primary services
pub struct Server<C: ConnectionChannel> {
    primary_services: Vec<Service>,
    server: AttServer<C>,
}

impl<C: ConnectionChannel> Server<C> {
    /// The primary services of the server
    pub closed spec fn spec_primary_services(&self) -> Seq<ServiceView> {
        spec_service_views(self.primary_services@)
    }

    /// The attribute server
    pub closed spec fn spec_server(&self) -> ServerView {
        self.server@
    }

    /// The connection of the server
    pub closed spec fn spec_connection(&self) -> C {
        self.server.spec_connection()
    }

    /// The attribute server
    pub fn as_ref(&self) -> (r: &AttServer<C>)
        ensures
            r@ == self.spec_server(),
            r.spec_connection() == self.spec_connection(),
    {
        &self.server
    }

    /// The attribute server, to change
    pub fn as_mut(&mut self) -> (r: &mut AttServer<C>)
        ensures
            (*r)@ == old(self).spec_server(),
            (*r).spec_connection() == old(self).spec_connection(),
            final(self).spec_server() == (*final(r))@,
            final(self).spec_connection() == (*final(r)).spec_connection(),
            final(self).spec_primary_services() == old(self).spec_primary_services(),
    {
        &mut self.server
    }

    /// The error that keeps the client from reading the definition of `service`, if any
    fn service_permission_error(&self, service: &Service) -> (r: Option<pdu::Error>)
        ensures
            r == spec_service_permission_error(self.spec_server(), service@),
    {
        let mut required: Vec<AttributePermissions> = Vec::new();
        required.push(AttributePermissions::Read);
        let mut restricted: Vec<AttributePermissions> = Vec::new();
        restricted.push(AttributePermissions::Encryption(AttributeRestriction::Read, EncryptionKeySize::Bits128));
        restricted.push(AttributePermissions::Encryption(AttributeRestriction::Read, EncryptionKeySize::Bits192));
        restricted.push(AttributePermissions::Encryption(AttributeRestriction::Read, EncryptionKeySize::Bits256));
        restricted.push(AttributePermissions::Authentication(AttributeRestriction::Read));
        restricted.push(AttributePermissions::Authorization(AttributeRestriction::Write));
        assert(required@ =~= spec_group_required());
        assert(restricted@ =~= spec_group_restricted());
        match self.server.check_permission(service.service_handle, required.as_slice(), restricted.as_slice()) {
            Ok(()) => None,
            Err(e) => Some(e),
        }
    }

    /// The answer to a read by group type request
    pub fn read_by_group_type_response(&self, payload: &[u8]) -> (r: Result<Vec<u8>, AttError>)
        ensures
            r is Err <==> spec_read_by_group_type_response(self.spec_primary_services(), self.spec_server(), payload@) is None,
            r matches Err(e) ==> e is TransferFormat,
            r matches Ok(bytes) ==> Some(bytes@) == spec_read_by_group_type_response(self.spec_primary_services(),
                self.spec_server(), payload@),
    {
        let ghost services = self.spec_primary_services();
        let ghost v = self.spec_server();
        let request = match <pdu::TypeRequest as TransferFormat>::from(payload) {
            Ok(p) => p,
            Err(e) => return Err(AttError::TransferFormat(e)),
        };
        let op = READ_BY_GROUP_TYPE_REQUEST;
        let range = request.handle_range;
        let sh = range.starting_handle;
        if !range.is_valid() {
            return Ok(error_pdu(op, sh, pdu::Error::InvalidHandle));
        }
        if request.attr_type.into_u128() != UUID::from_u16(PRIMARY_SERVICE_TYPE).into_u128() {
            return Ok(error_pdu(op, sh, pdu::Error::UnsupportedGroupType));
        }
        let mut k: usize = 0;
        loop
            invariant
                k <= self.primary_services@.len(),
                services == spec_service_views(self.primary_services@),
                spec_first_service_from(services, 0, sh) == spec_first_service_from(services, k as int, sh),
            ensures
                k < self.primary_services@.len() ==> services[k as int].service_handle >= sh,
            decreases self.primary_services@.len() - k,
        {
            if k >= self.primary_services.len() {
                break;
            }
            if self.primary_services[k].service_handle >= sh {
                break;
            }
            k += 1;
        }
        if k >= self.primary_services.len() {
            return Ok(error_pdu(op, sh, pdu::Error::AttributeNotFound));
        }
        let first = &self.primary_services[k];
        if let Some(e) = self.service_permission_error(first) {
            return Ok(error_pdu(op, sh, e));
        }
        let short = first.service_type.try_into_u16().is_some();
        let size: usize = if short { 2 } else { 16 };
        let mtu = self.server.get_mtu();
        let max_data: usize = if mtu < 255 { mtu as usize } else { 255 };
        let limit = max_data / (4 + size) + 1;
        let mut entries: Vec<u8> = Vec::new();
        let mut n: usize = 0;
        let total = self.primary_services.len();
        let remaining = total - k;
        loop
            invariant
                k < self.primary_services@.len(),
                total == self.primary_services@.len(),
                remaining == self.primary_services@.len() - k,
                n <= limit,
                k + n <= self.primary_services@.len(),
                services == spec_service_views(self.primary_services@),
                short == (crate::uuid::spec_short_u16(services[k as int].service_type) is Some),
                spec_group_run(v, services, k as int, range.ending_handle, short)
                    == n + spec_group_run(v, services, (k + n) as int, range.ending_handle, short),
                entries@ == spec_group_entries(services, k as int, n as nat, short),
                v == self.spec_server(),
            ensures
                n == spec_min(spec_group_run(v, services, k as int, range.ending_handle, short) as int, limit as int),
                entries@ == spec_group_entries(services, k as int, n as nat, short),
            decreases self.primary_services@.len() - (k + n),
        {
            if n >= limit || n >= remaining {
                break;
            }
            let service = &self.primary_services[k + n];
            let service_short = service.service_type.try_into_u16();
            let listed = service.service_handle <= range.ending_handle
                && (!short || service_short.is_some())
                && self.service_permission_error(service).is_none();
            if !listed {
                break;
            }
            let type_bytes = match service_short {
                Some(t) => if short { u16_bytes(t) } else { crate::att::le::le_encode(service.service_type.into_u128(), 16) },
                None => crate::att::le::le_encode(service.service_type.into_u128(), 16),
            };
            entries = concat(concat(concat(entries, u16_bytes(service.service_handle)), u16_bytes(service.end_group_handle)),
                type_bytes);
            proof {
                assert(entries@ =~= spec_group_entries(services, k as int, (n + 1) as nat, short));
            }
            n += 1;
        }
        if n == 0 {
            return Ok(error_pdu(op, sh, pdu::Error::AttributeNotFound));
        }
        let mut head: Vec<u8> = Vec::new();
        head.push(0x11u8);
        head.push((4 + size) as u8);
        let r = concat(head, entries);
        assert(r@ =~= spec_read_by_group_type_response(services, v, payload@).unwrap());
        Ok(r)
    }
}

impl ServerBuilder {
    /// Make a server
    ///
    /// Construct a server from the server builder.
    pub fn make_server<C: ConnectionChannel>(self, connection_channel: C, server_mtu: Option<u16>) -> (r: Server<C>)
        ensures
            r.spec_primary_services() == self@.primary_services,
            r.spec_server().attributes == self@.attributes,
            r.spec_server().given_permissions == Seq::<AttributePermissions>::empty(),
            r.spec_server().set_mtu is None,
            r.spec_connection() == connection_channel,
            r.spec_server().max_mtu == (match server_mtu {
                Some(v) => if v >= C::spec_default_att_mtu() { v } else { C::spec_default_att_mtu() },
                None => C::spec_default_att_mtu(),
            }),
    {
        Server {
            primary_services: self.primary_services,
            server: AttServer::new(connection_channel, server_mtu, Some(self.attributes)),
        }
    }
}

/// A request that a GATT server received, to be processed
pub struct GattRequestProcessor {
    pdu_type: ClientPduName,
    payload: Vec<u8>,
}

impl GattRequestProcessor {
    /// The kind of the request
    pub closed spec fn spec_pdu_type(&self) -> ClientPduName {
        self.pdu_type
    }

    /// The parameters of the request, the bytes after its opcode
    pub closed spec fn spec_payload(&self) -> Seq<u8> {
        self.payload@
    }

    /// Process the request and send the response to the client
    ///
    /// A read by group type request is answered by the GATT server itself, any other request
    /// by its attribute server.
    pub fn process_request<C: ConnectionChannel>(&self, server: &mut Server<C>) -> (r: Result<(), AttError>)
        ensures
            final(server).spec_primary_services() == old(server).spec_primary_services(),
            final(server).spec_connection() == old(server).spec_connection(),
            self.spec_pdu_type() == ClientPduName::ReadByGroupTypeRequest ==> {
                &&& r is Err <==> spec_read_by_group_type_response(old(server).spec_primary_services(),
                    old(server).spec_server(), self.spec_payload()) is None
                &&& final(server).spec_server() == old(server).spec_server()
                &&& r is Ok ==> spec_sent_att(old(server).spec_connection(), spec_read_by_group_type_response(
                    old(server).spec_primary_services(), old(server).spec_server(), self.spec_payload()).unwrap())
            },
            self.spec_pdu_type() != ClientPduName::ReadByGroupTypeRequest ==> {
                &&& r is Err <==> spec_process_request(old(server).spec_server(), self.spec_pdu_type(), self.spec_payload()) is None
                &&& r is Err ==> final(server).spec_server() == old(server).spec_server()
                &&& r is Ok ==> final(server).spec_server() == spec_process_request(old(server).spec_server(),
                    self.spec_pdu_type(), self.spec_payload()).unwrap().0
                &&& r is Ok ==> forall|i: int| 0 <= i < spec_process_request(old(server).spec_server(),
                    self.spec_pdu_type(), self.spec_payload()).unwrap().1.len()
                    ==> spec_sent_att(old(server).spec_connection(), #[trigger] spec_process_request(old(server).spec_server(),
                        self.spec_pdu_type(), self.spec_payload()).unwrap().1[i])
            },
    {
        match self.pdu_type {
            ClientPduName::ReadByGroupTypeRequest => {
                let response = server.read_by_group_type_response(self.payload.as_slice())?;
                let acl = AclData::new(response, crate::att::l2cap_channel_id());
                server.server.as_ref().send(acl);
                assert(server.spec_connection().spec_sent(acl));
                Ok(())
            },
            _ => server.server.process_parsed_acl_data(self.pdu_type, self.payload.as_slice()),
        }
    }
}

impl<C: ConnectionChannel> Server<C> {
    /// Receive a request
    ///
    /// The ACL packet is parsed as by the attribute server; the request it holds is returned
    /// to be processed.
    pub fn receiver(&self, acl_data: &AclData) -> (r: Result<GattRequestProcessor, AttError>)
        ensures
            spec_parse_acl_packet(acl_data.spec_channel_id().cid, acl_data.spec_payload()) matches Ok(name)
                ==> r matches Ok(p) && p.spec_pdu_type() == name && p.spec_payload() == acl_data.spec_payload().skip(1),
            spec_parse_acl_packet(acl_data.spec_channel_id().cid, acl_data.spec_payload()) matches Err(e)
                ==> r matches Err(x) && x == e,
    {
        let (pdu_type, payload) = self.server.parse_acl_packet(acl_data)?;
        Ok(GattRequestProcessor { pdu_type, payload: vstd::slice::slice_to_vec(payload) })
    }
}

} // verus!
