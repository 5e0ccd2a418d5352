use std::cell::RefCell;

use lib::att::AttributePermissions;
use lib::gap::ConnectionChannel;
use lib::att::TransferFormat;
use lib::gatt::characteristic::{
    ClientConfiguration, Declaration, ExtendedProperties, Properties, ServerConfiguration, UserDescription,
};
use lib::gatt::{GapServiceBuilder, ServerBuilder, ServiceInclude};
use lib::l2cap::AclData;
use lib::UUID;

struct DummyConnection;

impl ConnectionChannel for DummyConnection {
    fn spec_default_att_mtu() -> u16 {
        u16::MAX
    }

    fn default_att_mtu() -> u16 {
        u16::MAX
    }

    fn spec_sent(&self, _: AclData) -> bool {
        true
    }

    fn send(&self, _: AclData) {}
}

struct Recorder {
    sent: RefCell<Vec<Vec<u8>>>,
}

impl ConnectionChannel for Recorder {
    fn spec_default_att_mtu() -> u16 {
        23
    }

    fn default_att_mtu() -> u16 {
        23
    }

    fn spec_sent(&self, data: AclData) -> bool {
        self.sent.borrow().iter().any(|s| s.as_slice() == data.get_payload())
    }

    fn send(&self, data: AclData) {
        self.sent.borrow_mut().push(data.into_data());
    }
}

#[test]
fn create_gatt_attributes() {
    let mut server_builder = ServerBuilder::new();

    let test_service_1 = server_builder
        .new_service_constructor(UUID::from_u16(0x1234), false)
        .into_characteristics_adder()
        .build_characteristic(
            vec![Properties::Read],
            UUID::from_u16(0x1234),
            Box::new(0usize),
            vec![AttributePermissions::Read],
        )
        .set_extended_properties(Some(vec![ExtendedProperties::ReliableWrite]))
        .set_user_description(Some(UserDescription::new("Test 1", vec![AttributePermissions::Read])))
        .set_client_configuration(Some(vec![ClientConfiguration::Notification]))
        .set_server_configuration(Some(vec![ServerConfiguration::Broadcast]))
        .finish_characteristic()
        .finish_service();

    let _test_service_2 = server_builder
        .new_service_constructor(UUID::from_u16(0x3456), true)
        .into_includes_adder()
        .include_service(&test_service_1)
        .finish_service();

    server_builder.make_server(DummyConnection, Some(0xFF));
}

#[test]
fn service_handles_cover_their_attributes() {
    let mut server_builder = ServerBuilder::new();
    let service = server_builder
        .new_service_constructor(UUID::from_u16(0x180f), true)
        .into_characteristics_adder()
        .build_characteristic(vec![Properties::Read], UUID::from_u16(0x2a19), Box::new(100u8), vec![AttributePermissions::Read])
        .finish_characteristic()
        .finish_service();
    // the GAP service takes the handles 1 to 5
    assert_eq!(service.service_handle(), 6);
    assert_eq!(service.end_group_handle(), 8);
    assert_eq!(service.service_type().into_u128(), UUID::from_u16(0x180f).into_u128());

    let empty = server_builder.new_service_constructor(UUID::from_u16(0x1811), false).make_empty();
    assert_eq!(empty.service_handle(), 9);
    assert_eq!(empty.end_group_handle(), 9);
}

#[test]
fn gap_service_is_read() {
    let server_builder = ServerBuilder::new_with_gap(GapServiceBuilder::new(Some("dev"), Some(0x0341)));
    let mut server = server_builder.make_server(Recorder { sent: RefCell::new(Vec::new()) }, None);

    // read the device name value at handle 3
    let acl = AclData::new(vec![0x0A, 3, 0], lib::att::l2cap_channel_id());
    let request = server.receiver(&acl).ok().unwrap();
    assert!(request.process_request(&mut server).is_ok());
    // read the appearance value at handle 5
    let acl = AclData::new(vec![0x0A, 5, 0], lib::att::l2cap_channel_id());
    let request = server.receiver(&acl).ok().unwrap();
    assert!(request.process_request(&mut server).is_ok());
    let sent = server.as_ref().as_ref().sent.borrow().clone();
    assert_eq!(sent, vec![vec![0x0B, b'd', b'e', b'v'], vec![0x0B, 0x41, 0x03]]);
}

#[test]
fn read_by_group_type_lists_primary_services() {
    let mut server_builder = ServerBuilder::new();
    server_builder
        .new_service_constructor(UUID::from_u16(0x180f), true)
        .into_characteristics_adder()
        .build_characteristic(vec![Properties::Read], UUID::from_u16(0x2a19), Box::new(100u8), vec![AttributePermissions::Read])
        .finish_characteristic()
        .finish_service();
    let mut server = server_builder.make_server(Recorder { sent: RefCell::new(Vec::new()) }, None);
    server.as_mut().give_permission_to_client(AttributePermissions::Read);

    // read by group type of the primary services over the whole range; the parameters
    // follow the opcode
    let payload = vec![0x01, 0x00, 0xff, 0xff, 0x00, 0x28];
    let response = server.read_by_group_type_response(&payload).ok().unwrap();
    assert_eq!(response, vec![0x11, 6, 1, 0, 5, 0, 0x00, 0x18, 6, 0, 8, 0, 0x0f, 0x18]);

    // an unsupported group type
    let payload = vec![0x01, 0x00, 0xff, 0xff, 0x01, 0x28];
    let response = server.read_by_group_type_response(&payload).ok().unwrap();
    assert_eq!(response, vec![0x01, 0x10, 0x01, 0x00, 0x10]);

    // an invalid range
    let payload = vec![0x00, 0x00, 0xff, 0xff, 0x00, 0x28];
    let response = server.read_by_group_type_response(&payload).ok().unwrap();
    assert_eq!(response, vec![0x01, 0x10, 0x00, 0x00, 0x01]);

    // a range after the services
    let payload = vec![0x09, 0x00, 0xff, 0xff, 0x00, 0x28];
    let response = server.read_by_group_type_response(&payload).ok().unwrap();
    assert_eq!(response, vec![0x01, 0x10, 0x09, 0x00, 0x0A]);

    // processing sends the answer
    let acl = AclData::new(vec![0x10, 0x01, 0x00, 0xff, 0xff, 0x00, 0x28], lib::att::l2cap_channel_id());
    let request = server.receiver(&acl).ok().unwrap();
    assert!(request.process_request(&mut server).is_ok());
    assert_eq!(server.as_ref().as_ref().sent.borrow().len(), 1);
}

#[test]
fn read_by_group_type_needs_read_permission() {
    let server_builder = ServerBuilder::new();
    let server = server_builder.make_server(Recorder { sent: RefCell::new(Vec::new()) }, None);
    let payload = vec![0x01, 0x00, 0xff, 0xff, 0x00, 0x28];
    let response = server.read_by_group_type_response(&payload).ok().unwrap();
    assert_eq!(response, vec![0x01, 0x10, 0x01, 0x00, 0x02]);
    assert!(server.read_by_group_type_response(&[0x01]).is_err());
}

#[test]
fn properties_bit_field_roundtrip() {
    let field = Properties::into_bit_field(&[Properties::Write, Properties::Read, Properties::Write]);
    assert_eq!(field, 0x0A);
    assert_eq!(Properties::from_bit_field(field), vec![Properties::Read, Properties::Write]);
    assert_eq!(Properties::from_bit_field(0x81), vec![Properties::Broadcast, Properties::ExtendedProperties]);
    assert_eq!(Properties::into_bit_field(&[]), 0);
}

#[test]
fn declaration_roundtrip() {
    let declaration = Declaration {
        properties: vec![Properties::Notify, Properties::Read],
        value_handle: 0x0203,
        uuid: UUID::from_u128(0x0102_0304_0506_0708_090a_0b0c_0d0e_0f10),
    };
    let raw = TransferFormat::into(&declaration);
    assert_eq!(raw.len(), 19);
    assert_eq!(&raw[..3], &[0x12, 0x03, 0x02]);
    let read = <Declaration as TransferFormat>::from(&raw).ok().unwrap();
    assert_eq!(read.properties, vec![Properties::Read, Properties::Notify]);
    assert_eq!(read.value_handle, 0x0203);
    assert_eq!(read.uuid.into_u128(), declaration.uuid.into_u128());

    // a declaration of a 16 bit UUID has five bytes, too few to be read back
    let short = Declaration { properties: vec![Properties::Read], value_handle: 3, uuid: UUID::from_u16(0x2a19) };
    let raw = TransferFormat::into(&short);
    assert_eq!(raw, vec![0x02, 3, 0, 0x19, 0x2a]);
    assert!(<Declaration as TransferFormat>::from(&raw).is_err());
}

#[test]
fn include_and_descriptor_roundtrips() {
    let definition = ServiceInclude { service_handle: 6, end_group_handle: 0x0108, short_service_type: Some(0x180f) };
    let raw = TransferFormat::into(&definition);
    assert_eq!(raw, vec![6, 0, 0x08, 0x01, 0x0f, 0x18]);
    assert_eq!(<ServiceInclude as TransferFormat>::from(&raw).ok(), Some(definition));
    let long = ServiceInclude { service_handle: 6, end_group_handle: 7, short_service_type: None };
    assert!(<ServiceInclude as TransferFormat>::from(&TransferFormat::into(&long)).is_err());

    let ext = TransferFormat::into(&ExtendedProperties::WritableAuxiliaries);
    assert_eq!(ext, vec![2, 0]);
    assert_eq!(<ExtendedProperties as TransferFormat>::from(&ext).ok(), Some(ExtendedProperties::WritableAuxiliaries));
    let cfg = TransferFormat::into(&ClientConfiguration::Indication);
    assert_eq!(<ClientConfiguration as TransferFormat>::from(&cfg).ok(), Some(ClientConfiguration::Indication));
    assert!(<ClientConfiguration as TransferFormat>::from(&[3, 0]).is_err());
    let srv = TransferFormat::into(&ServerConfiguration::Broadcast);
    assert_eq!(<ServerConfiguration as TransferFormat>::from(&srv).ok(), Some(ServerConfiguration::Broadcast));
}

#[test]
fn default_gap_service_is_the_builders_default() {
    let plain = ServerBuilder::new().make_server(Recorder { sent: RefCell::new(Vec::new()) }, None);
    let gap = ServerBuilder::new_with_gap(GapServiceBuilder::new(None, None))
        .make_server(Recorder { sent: RefCell::new(Vec::new()) }, None);
    for server in [&plain, &gap] {
        for handle in 1u8..=5 {
            assert!(server.as_ref().send_notification(handle as u16));
        }
        assert!(!server.as_ref().send_notification(6));
    }
    let sent_plain = plain.as_ref().as_ref().sent.borrow().clone();
    let sent_gap = gap.as_ref().as_ref().sent.borrow().clone();
    assert_eq!(sent_plain, sent_gap);
    // the device name is empty and the appearance unknown
    assert_eq!(sent_plain[2], vec![0x1B, 3, 0]);
    assert_eq!(sent_plain[4], vec![0x1B, 5, 0, 0, 0]);
}

#[test]
fn descriptors_have_their_assigned_types() {
    let mut server_builder = ServerBuilder::new();
    server_builder
        .new_service_constructor(UUID::from_u16(0x1234), true)
        .into_characteristics_adder()
        .build_characteristic(vec![Properties::Read], UUID::from_u16(0x1235), Box::new(0u8), vec![AttributePermissions::Read])
        .set_extended_properties(Some(vec![ExtendedProperties::ReliableWrite]))
        .set_user_description(Some(UserDescription::new("d", vec![AttributePermissions::Read])))
        .set_client_configuration(Some(vec![ClientConfiguration::Notification]))
        .set_server_configuration(Some(vec![ServerConfiguration::Broadcast]))
        .finish_characteristic()
        .finish_service();
    let mut server = server_builder.make_server(Recorder { sent: RefCell::new(Vec::new()) }, None);
    // the GAP service takes the handles 1 to 5, the service definition 6, the declaration 7
    // and the value 8
    let acl = AclData::new(vec![0x04, 7, 0, 12, 0], lib::att::l2cap_channel_id());
    let request = server.receiver(&acl).ok().unwrap();
    assert!(request.process_request(&mut server).is_ok());
    let acl = AclData::new(vec![0x04, 9, 0, 12, 0], lib::att::l2cap_channel_id());
    let request = server.receiver(&acl).ok().unwrap();
    assert!(request.process_request(&mut server).is_ok());
    let sent = server.as_ref().as_ref().sent.borrow().clone();
    assert_eq!(
        sent[0],
        vec![0x05, 0x01, 7, 0, 0x03, 0x28, 8, 0, 0x35, 0x12, 9, 0, 0x00, 0x29, 10, 0, 0x01, 0x29, 11, 0, 0x02, 0x29]
    );
    assert_eq!(
        sent[1],
        vec![0x05, 0x01, 9, 0, 0x00, 0x29, 10, 0, 0x01, 0x29, 11, 0, 0x02, 0x29, 12, 0, 0x03, 0x29]
    );
}
