use std::cell::RefCell;
use std::rc::Rc;

use lib::att;
use lib::att::client::{Client, ClientPduName};
use lib::att::pdu;
use lib::att::pdu::{HandleRange, Pdu, PduOpCode};
use lib::att::server::{Server, ServerAttributes, ServerPduName};
use lib::att::AttributePermissions::{Authentication, Encryption, Read, Write};
use lib::att::{Attribute, AttributePermissions, AttributeRestriction, EncryptionKeySize, TransferFormat};
use lib::gap::ConnectionChannel;
use lib::l2cap::{AclData, ChannelIdentifier};
use lib::UUID;

/// A connection that keeps what is sent over it
struct Recorder {
    sent: RefCell<Vec<Vec<u8>>>,
}

impl Recorder {
    fn new() -> Recorder {
        Recorder { sent: RefCell::new(Vec::new()) }
    }
}

impl ConnectionChannel for Recorder {
    fn spec_default_att_mtu() -> u16 {
        23
    }

    fn default_att_mtu() -> u16 {
        23
    }

    fn spec_sent(&self, data: AclData) -> bool {
        self.sent.borrow().iter().any(|s| s.as_slice() == data.get_payload())
    }

    fn send(&self, data: AclData) {
        self.sent.borrow_mut().push(data.into_data());
    }
}

fn att_packet(bytes: Vec<u8>) -> AclData {
    AclData::new(bytes, att::l2cap_channel_id())
}

/// A server with a primary service declaration at handle 1, a readable and writable `u8` at
/// handle 2 and an attribute of a 128 bit type at handle 3
fn test_server() -> Server<Recorder> {
    let mut attributes = ServerAttributes::new();
    attributes.push(Attribute::new(UUID::from_u16(0x2800), vec![AttributePermissions::Read], UUID::from_u16(0x180f)));
    attributes.push(Attribute::new(
        UUID::from_u16(0x2a19),
        vec![AttributePermissions::Read, AttributePermissions::Write],
        100u8,
    ));
    attributes.push(Attribute::new(
        UUID::from_u128(0x0011_2233_4455_6677_8899_aabb_ccdd_eeff),
        vec![AttributePermissions::Read],
        0x0102u16,
    ));
    Server::new(Recorder::new(), Some(200), Some(attributes))
}

/// The PDUs the server sent since the last call
fn take_sent(server: &Server<Recorder>) -> Vec<Vec<u8>> {
    server.as_ref().sent.borrow_mut().drain(..).collect()
}

fn request(server: &mut Server<Recorder>, bytes: Vec<u8>) -> Vec<Vec<u8>> {
    assert!(server.process_acl_data(&att_packet(bytes)).is_ok());
    take_sent(server)
}

#[test]
fn uuid_conversions() {
    let short = UUID::from_u16(0x180f);
    assert_eq!(short.into_u128(), 0x0000_180f_0000_1000_8000_0080_5f9b_34fb);
    assert_eq!(short.try_into_u16(), Some(0x180f));
    assert_eq!(short.try_into_u32(), Some(0x180f));
    let long = UUID::from_u32(0x1234_5678);
    assert_eq!(long.try_into_u16(), None);
    assert_eq!(long.try_into_u32(), Some(0x1234_5678));
    let full = UUID::from_u128(7);
    assert_eq!(full.try_into_u16(), None);
    assert_eq!(full.try_into_u32(), None);
    assert_eq!(full.into_u128(), 7);
}

#[test]
fn integer_transfer_formats() {
    assert_eq!(<u16 as TransferFormat>::from(&[0x34, 0x12]).ok(), Some(0x1234u16));
    assert_eq!(TransferFormat::into(&0x1234u16), vec![0x34, 0x12]);
    assert!(<u16 as TransferFormat>::from(&[0x34]).is_err());
    assert_eq!(<u32 as TransferFormat>::from(&[1, 0, 0, 0x80]).ok(), Some(0x8000_0001u32));
    assert_eq!(TransferFormat::into(&-2i16), vec![0xfe, 0xff]);
    assert_eq!(<i16 as TransferFormat>::from(&[0xfe, 0xff]).ok(), Some(-2i16));
    assert_eq!(<i8 as TransferFormat>::from(&[0xf5]).ok(), Some(-11i8));
    let raw = [0x00, 0x00, 0x00, 0x80];
    let read = <i32 as TransferFormat>::from(&raw).ok().unwrap();
    assert_eq!(read, i32::MIN);
    assert_eq!(TransferFormat::into(&read), raw.to_vec());
    assert_eq!(TransferFormat::into(&()), Vec::<u8>::new());
    let err = <u64 as TransferFormat>::from(&[1, 2, 3]).err().unwrap();
    assert_eq!(err.pdu_err, pdu::Error::InvalidPDU);
}

#[test]
fn string_and_uuid_transfer_formats() {
    assert_eq!(<String as TransferFormat>::from(b"abc").ok(), Some("abc".to_string()));
    assert!(<String as TransferFormat>::from(&[0xff, 0xfe]).is_err());
    assert_eq!(TransferFormat::into(&"hi".to_string()), vec![b'h', b'i']);

    let short = <UUID as TransferFormat>::from(&[0x0f, 0x18]).ok().unwrap();
    assert_eq!(short.into_u128(), UUID::from_u16(0x180f).into_u128());
    assert_eq!(TransferFormat::into(&UUID::from_u16(0x180f)), vec![0x0f, 0x18]);
    let raw: Vec<u8> = (1..=16).collect();
    let long = <UUID as TransferFormat>::from(&raw).ok().unwrap();
    assert_eq!(TransferFormat::into(&long), raw);
    assert!(<UUID as TransferFormat>::from(&[1, 2, 3]).is_err());
}

#[test]
fn vec_and_range_transfer_formats() {
    assert_eq!(<Vec<u16> as TransferFormat>::from(&[1, 0, 2, 0]).ok(), Some(vec![1u16, 2]));
    assert!(<Vec<u16> as TransferFormat>::from(&[1, 0, 2]).is_err());
    assert_eq!(TransferFormat::into(&vec![0x0102u16, 3]), vec![2, 1, 3, 0]);

    let range = <HandleRange as TransferFormat>::from(&[1, 0, 0xff, 0xff]).ok().unwrap();
    assert_eq!(range, HandleRange::new(1, 0xffff));
    assert!(range.is_valid());
    assert!(!HandleRange::new(0, 3).is_valid());
    assert!(!HandleRange::new(4, 3).is_valid());
    assert_eq!(TransferFormat::into(&HandleRange::new(2, 0x0304)), vec![2, 0, 4, 3]);
}

#[test]
fn pdu_builders_give_their_bytes() {
    assert_eq!(TransferFormat::into(&pdu::exchange_mtu_request(512)), vec![0x02, 0x00, 0x02]);
    assert_eq!(TransferFormat::into(&pdu::read_request(3)), vec![0x0A, 3, 0]);
    assert_eq!(TransferFormat::into(&pdu::write_request(2, 7u8)), vec![0x12, 2, 0, 7]);
    assert_eq!(TransferFormat::into(&pdu::write_response()), vec![0x13]);
    assert_eq!(
        TransferFormat::into(&pdu::error_response(0x0A, 9, pdu::Error::InvalidHandle)),
        vec![0x01, 0x0A, 9, 0, 0x01]
    );
    assert_eq!(
        TransferFormat::into(&pdu::find_information_request(HandleRange::new(1, 0xffff))),
        vec![0x04, 1, 0, 0xff, 0xff]
    );
    assert_eq!(TransferFormat::into(&pdu::handle_value_notification(2, 5u8)), vec![0x1B, 2, 0, 5]);
    assert_eq!(TransferFormat::into(&pdu::execute_write_request(true)), vec![0x18, 1]);

    let parsed = <Pdu<u16> as TransferFormat>::from(&[0x02, 0x17, 0x00]).ok().unwrap();
    assert_eq!(parsed.get_opcode().into_raw(), 0x02);
    assert_eq!(*parsed.get_parameters(), 23);
    let empty: [u8; 0] = [];
    assert!(<Pdu<u16> as TransferFormat>::from(&empty).is_err());
}

#[test]
fn error_codes_roundtrip() {
    for raw in 0..=255u8 {
        assert_eq!(pdu::Error::from_raw(raw).get_raw(), raw);
    }
    assert_eq!(pdu::Error::from_raw(0x0C), pdu::Error::InsufficientEncryptionKeySize);
    assert_eq!(pdu::Error::from_raw(0x06), pdu::Error::RequestNotSupported);
    assert_eq!(pdu::Error::InvalidHandle.get_raw(), 0x01);
}

#[test]
fn opcode_flags() {
    let op = PduOpCode::from_raw(0xD2);
    assert_eq!(op.into_raw(), 0xD2);
    assert!(op.is_signed());
    assert!(!PduOpCode::from_raw(0x52).is_signed());
    assert_eq!(PduOpCode::new().into_raw(), 0);
}

#[test]
fn pdu_names_convert() {
    assert_eq!(ClientPduName::try_from(0x0A), Ok(ClientPduName::ReadRequest));
    assert_eq!(ClientPduName::try_from(0x0B), Err(()));
    assert_eq!(ClientPduName::SignedWriteCommand.into_raw(), 0xD2);
    assert_eq!(ServerPduName::try_from(0x0B), Ok(ServerPduName::ReadResponse));
    assert_eq!(ServerPduName::try_from(0x0A), Err(()));
    assert_eq!(ServerPduName::HandleValueNotification.into_raw(), 0x1B);
    assert!(ServerPduName::ExchangeMTUResponse.is_convertable_from(&[0x03, 23, 0]));
    assert!(!ServerPduName::ExchangeMTUResponse.is_convertable_from(&[0x03, 23]));
    assert!(!ServerPduName::ErrorResponse.is_convertable_from(&[]));
    for raw in 0..=255u8 {
        assert!(!(ClientPduName::try_from(raw).is_ok() && ServerPduName::try_from(raw).is_ok()));
    }
}

#[test]
fn server_reads_and_writes() {
    let mut server = test_server();
    assert_eq!(request(&mut server, vec![0x0A, 2, 0]), vec![vec![0x0B, 100]]);
    assert_eq!(request(&mut server, vec![0x0A, 1, 0]), vec![vec![0x0B, 0x0f, 0x18]]);
    assert_eq!(request(&mut server, vec![0x0A, 9, 0]), vec![vec![0x01, 0x0A, 9, 0, 0x01]]);

    assert_eq!(request(&mut server, vec![0x12, 2, 0, 7]), vec![vec![0x13]]);
    assert_eq!(request(&mut server, vec![0x0A, 2, 0]), vec![vec![0x0B, 7]]);

    // a value of the wrong size keeps the old one
    assert_eq!(request(&mut server, vec![0x12, 2, 0, 7, 8]), vec![vec![0x01, 0x12, 2, 0, 0x04]]);
    assert_eq!(request(&mut server, vec![0x12, 2]), vec![vec![0x01, 0x12, 0, 0, 0x04]]);
    assert_eq!(request(&mut server, vec![0x12, 9, 0, 1]), vec![vec![0x01, 0x12, 9, 0, 0x01]]);
    assert_eq!(request(&mut server, vec![0x0A, 2, 0]), vec![vec![0x0B, 7]]);
}

#[test]
fn server_exchanges_mtu() {
    let mut server = test_server();
    assert_eq!(server.get_mtu(), 23);
    // the server answers with its largest MTU, 200
    // below the default MTU: the default MTU is agreed on
    assert_eq!(request(&mut server, vec![0x02, 10, 0]), vec![vec![0x03, 200, 0]]);
    assert_eq!(server.get_mtu(), 23);
    // above the largest MTU of the server: the largest MTU is agreed on
    assert_eq!(request(&mut server, vec![0x02, 0xff, 0]), vec![vec![0x03, 200, 0]]);
    assert_eq!(server.get_mtu(), 200);
    assert_eq!(request(&mut server, vec![0x02, 100, 0]), vec![vec![0x03, 200, 0]]);
    assert_eq!(server.get_mtu(), 100);
    // a request of the wrong length is no transfer format
    assert!(matches!(server.process_acl_data(&att_packet(vec![0x02, 100])), Err(att::Error::TransferFormat(_))));
    assert!(take_sent(&server).is_empty());
    assert_eq!(server.get_mtu(), 100);
}

#[test]
fn server_max_mtu_is_at_least_the_default() {
    let mut server = Server::new(Recorder::new(), Some(10), None);
    assert_eq!(server.get_mtu(), 23);
    assert_eq!(server.next_handle(), 1);
    assert_eq!(request(&mut server, vec![0x02, 24, 0]), vec![vec![0x03, 23, 0]]);
    assert_eq!(request(&mut server, vec![0x02, 23, 0]), vec![vec![0x03, 23, 0]]);
}

#[test]
fn server_finds_information() {
    let mut server = test_server();
    assert_eq!(
        request(&mut server, vec![0x04, 1, 0, 0xff, 0xff]),
        vec![vec![0x05, 0x01, 1, 0, 0x00, 0x28, 2, 0, 0x19, 0x2a]]
    );
    let mut info128 = vec![0x05u8, 0x02, 3, 0];
    info128.extend_from_slice(&0x0011_2233_4455_6677_8899_aabb_ccdd_eeffu128.to_le_bytes());
    assert_eq!(request(&mut server, vec![0x04, 3, 0, 0xff, 0xff]), vec![info128]);
    assert_eq!(request(&mut server, vec![0x04, 0, 0, 0xff, 0xff]), vec![vec![0x01, 0x04, 0, 0, 0x01]]);
    assert_eq!(request(&mut server, vec![0x04, 3, 0, 2, 0]), vec![vec![0x01, 0x04, 3, 0, 0x01]]);
    assert_eq!(request(&mut server, vec![0x04, 5, 0, 6, 0]), vec![vec![0x01, 0x04, 5, 0, 0x0A]]);
    assert!(server.process_acl_data(&att_packet(vec![0x04, 1, 0])).is_err());
}

#[test]
fn find_information_range_includes_its_end() {
    let mut attributes = ServerAttributes::new();
    attributes.push(Attribute::new(UUID::from_u16(0x2A00), vec![Read], 0u8));
    attributes.push(Attribute::new(UUID::from_u16(0x2A01), vec![Read], 0u8));
    attributes.push(Attribute::new(UUID::from_u16(0x2A02), vec![Read], 0u8));
    let mut server = Server::new(Recorder::new(), None, Some(attributes));
    assert_eq!(
        request(&mut server, vec![0x04, 1, 0, 2, 0]),
        vec![vec![0x05, 0x01, 0x01, 0x00, 0x00, 0x2A, 0x02, 0x00, 0x01, 0x2A]]
    );
    assert_eq!(request(&mut server, vec![0x04, 2, 0, 2, 0]), vec![vec![0x05, 0x01, 0x02, 0x00, 0x01, 0x2A]]);
    // a read by type of the last handle of a range finds it
    server.give_permission_to_client(Read);
    assert_eq!(request(&mut server, vec![0x08, 1, 0, 3, 0, 0x02, 0x2A]), vec![vec![0x09, 3, 3, 0, 0]]);
    assert_eq!(
        request(&mut server, vec![0x06, 1, 0, 3, 0, 0x02, 0x2A, 0]),
        vec![vec![0x07, 3, 0, 0x02, 0x2A]]
    );
}

#[test]
fn server_finds_by_type_value() {
    let mut server = test_server();
    assert_eq!(
        request(&mut server, vec![0x06, 1, 0, 0xff, 0xff, 0x19, 0x2a, 100]),
        vec![vec![0x07, 2, 0, 0x19, 0x2a]]
    );
    assert_eq!(
        request(&mut server, vec![0x06, 1, 0, 0xff, 0xff, 0x19, 0x2a, 99]),
        vec![vec![0x01, 0x06, 1, 0, 0x0A]]
    );
    assert_eq!(request(&mut server, vec![0x06, 0, 0, 0xff, 0xff, 0x19, 0x2a]), vec![vec![0x01, 0x06, 0, 0, 0x01]]);
    assert_eq!(request(&mut server, vec![0x06, 1, 0]), vec![vec![0x01, 0x00, 0, 0, 0x04]]);
}

#[test]
fn server_reads_by_type_with_permissions() {
    let mut server = test_server();
    let by_type = vec![0x08, 1, 0, 0xff, 0xff, 0x19, 0x2a];
    assert_eq!(
        request(&mut server, by_type.clone()),
        vec![vec![0x01, 0x08, 1, 0, 0x02], vec![0x01, 0x08, 1, 0, 0x0A]]
    );
    server.give_permission_to_client(AttributePermissions::Read);
    assert_eq!(request(&mut server, by_type.clone()), vec![vec![0x09, 3, 2, 0, 100]]);
    assert_eq!(
        request(&mut server, vec![0x08, 1, 0, 0xff, 0xff, 0x34, 0x12]),
        vec![vec![0x01, 0x08, 1, 0, 0x0A]]
    );
    assert_eq!(request(&mut server, vec![0x08, 0, 0, 0xff, 0xff, 0x19, 0x2a]), vec![vec![0x01, 0x08, 0, 0, 0x01]]);
    server.revoke_permissions_of_client(&[AttributePermissions::Read, AttributePermissions::Write]);
    assert_eq!(
        request(&mut server, by_type),
        vec![vec![0x01, 0x08, 1, 0, 0x02], vec![0x01, 0x08, 1, 0, 0x0A]]
    );
}

#[test]
fn server_answers_unsupported_requests() {
    let mut server = test_server();
    assert_eq!(request(&mut server, vec![0x0C, 2, 0, 0, 0]), vec![vec![0x01, 0x0C, 0, 0, 0x06]]);
    assert_eq!(request(&mut server, vec![0x52, 2, 0, 1]), vec![vec![0x01, 0x52, 0, 0, 0x06]]);
}

#[test]
fn server_refuses_bad_packets() {
    let mut server = test_server();
    let other_channel = AclData::new(vec![0x0A, 2, 0], ChannelIdentifier { cid: 0x0040 });
    assert!(matches!(server.process_acl_data(&other_channel), Err(att::Error::IncorrectChannelId)));
    assert!(matches!(server.process_acl_data(&att_packet(vec![])), Err(att::Error::Empty)));
    assert!(matches!(server.process_acl_data(&att_packet(vec![0xff])), Err(att::Error::UnknownOpcode(0xff))));
    assert!(matches!(server.process_acl_data(&att_packet(vec![0x0B, 1])), Err(att::Error::UnknownOpcode(0x0B))));
    assert!(take_sent(&server).is_empty());

    let packet = att_packet(vec![0x0A, 2, 0]);
    let parsed = server.parse_acl_packet(&packet).ok().unwrap();
    assert_eq!(parsed.0, ClientPduName::ReadRequest);
    // the parameters follow the opcode
    assert_eq!(parsed.1, &[2, 0]);
    let only_opcode = att_packet(vec![0x1E]);
    let parsed = server.parse_acl_packet(&only_opcode).ok().unwrap();
    assert_eq!(parsed.0, ClientPduName::HandleValueConfirmation);
    assert!(parsed.1.is_empty());
}

#[test]
fn server_sends_notifications_and_errors() {
    let mut server = test_server();
    assert!(server.send_notification(2));
    assert!(!server.send_notification(9));
    server.send_invalid_handle_error(7, 0x0A);
    server.send_error(2, 0x12, pdu::Error::WriteNotPermitted);
    assert_eq!(
        take_sent(&server),
        vec![vec![0x1B, 2, 0, 100], vec![0x01, 0x0A, 7, 0, 0x01], vec![0x01, 0x12, 2, 0, 0x03]]
    );
    let handle = server.push(Attribute::new(UUID::from_u16(0x2a00), vec![AttributePermissions::Read], 1u8));
    assert_eq!(handle, 4);
    assert_eq!(server.next_handle(), 5);
    assert_eq!(request(&mut server, vec![0x0A, 4, 0]), vec![vec![0x0B, 1]]);
}

#[test]
fn server_checks_permissions() {
    let mut attributes = ServerAttributes::new();
    attributes.push(Attribute::new(
        UUID::from_u16(0x2a00),
        vec![Read, Encryption(AttributeRestriction::Read, EncryptionKeySize::Bits128)],
        0u8,
    ));
    let mut server = Server::new(Recorder::new(), None, Some(attributes));
    let read_restricted = [
        Encryption(AttributeRestriction::Read, EncryptionKeySize::Bits128),
        Authentication(AttributeRestriction::Read),
    ];
    assert_eq!(server.check_permission(1, &[Read], &read_restricted), Err(pdu::Error::ReadNotPermitted));
    assert_eq!(server.check_permission(5, &[Read], &[]), Err(pdu::Error::InvalidHandle));
    server.give_permission_to_client(Read);
    server.give_permission_to_client(Read);
    assert_eq!(
        server.check_permission(1, &[Read], &read_restricted),
        Err(pdu::Error::InsufficientEncryptionKeySize)
    );
    assert_eq!(
        server.check_permission(1, &[Encryption(AttributeRestriction::Write, EncryptionKeySize::Bits128)], &[]),
        Err(pdu::Error::InsufficientEncryption)
    );
    assert_eq!(server.check_permission(1, &[Write], &[]), Err(pdu::Error::WriteNotPermitted));
    server.give_permission_to_client(Encryption(AttributeRestriction::Read, EncryptionKeySize::Bits128));
    assert_eq!(server.check_permission(1, &[Read], &read_restricted), Ok(()));
    server.revoke_permissions_of_client(&[Read]);
    assert_eq!(server.check_permission(1, &[Read], &read_restricted), Err(pdu::Error::ReadNotPermitted));
}

#[test]
fn attribute_permissions_are_deduplicated() {
    let attribute = Attribute::new(UUID::from_u16(1), vec![Write, Read, Write, Read], 0u8);
    assert_eq!(attribute.get_permissions(), &[Read, Write]);
    assert_eq!(attribute.get_handle(), None);
    assert_eq!(attribute.get_value_bytes(), vec![0]);
    assert_eq!(attribute.get_type().into_u128(), UUID::from_u16(1).into_u128());
}

#[test]
fn client_connects_with_the_smaller_mtu() {
    let channel = Recorder::new();
    let connecting = Client::connect(&channel, Some(100));
    // connecting sends the exchange MTU request
    assert_eq!(channel.sent.borrow().as_slice(), &[vec![0x02, 100, 0]]);
    let client = connecting.process_response(&att_packet(vec![0x03, 50, 0])).ok().unwrap();
    // a write of 48 bytes of data fits in an MTU of 50, one of 49 does not
    assert!(client.write_request(1, vec![0u8; 47]).is_ok());
    assert!(matches!(client.write_request(1, vec![0u8; 48]), Err(att::Error::MtuExceeded)));
    assert_eq!(channel.sent.borrow().len(), 2);
    assert_eq!(channel.sent.borrow()[1].len(), 50);
}

#[test]
fn client_connects_where_mtu_exchange_is_not_supported() {
    let channel = Recorder::new();
    let client = Client::connect(&channel, None)
        .process_response(&att_packet(vec![0x01, 0x02, 0, 0, 0x06]))
        .ok()
        .unwrap();
    assert!(client.write_request(1, vec![0u8; 20]).is_ok());
    assert!(client.write_request(1, vec![0u8; 21]).is_err());

    let refused = Client::connect(&channel, None).process_response(&att_packet(vec![0x01, 0x02, 0, 0, 0x0E]));
    assert!(matches!(refused, Err(att::Error::TransferFormat(ref e)) if e.pdu_err == pdu::Error::UnlikelyError));
    let wrong = Client::connect(&channel, None).process_response(&att_packet(vec![0x0B, 1]));
    assert!(matches!(wrong, Err(att::Error::TransferFormat(_))));
    let elsewhere = Client::connect(&channel, None)
        .process_response(&AclData::new(vec![0x03, 50, 0], ChannelIdentifier { cid: 5 }));
    assert!(matches!(elsewhere, Err(att::Error::IncorrectChannelId)));
}

#[test]
fn client_reads_responses() {
    let channel = Recorder::new();
    let client = Client::connect(&channel, Some(64)).process_response(&att_packet(vec![0x03, 64, 0])).ok().unwrap();

    let value = client.read_request::<u16>(3).ok().unwrap().process_response(&att_packet(vec![0x0B, 2, 1]));
    assert_eq!(value.ok(), Some(0x0102));
    assert_eq!(channel.sent.borrow().last().unwrap(), &vec![0x0A, 3, 0]);

    let refused = client.read_request::<u16>(3).ok().unwrap().process_response(&att_packet(vec![0x01, 0x0A, 3, 0, 0x02]));
    match refused {
        Err(att::Error::Pdu(p)) => {
            assert_eq!(p.get_parameters().request_opcode, 0x0A);
            assert_eq!(p.get_parameters().requested_handle, 3);
            assert_eq!(p.get_parameters().error, pdu::Error::ReadNotPermitted);
        }
        _ => panic!("expected an error response"),
    }
    let unexpected = client.read_request::<u16>(3).ok().unwrap().process_response(&att_packet(vec![0x13]));
    assert!(matches!(unexpected, Err(att::Error::UnexpectedPdu(0x13))));
    let empty = client.read_request::<u16>(3).ok().unwrap().process_response(&att_packet(vec![]));
    assert!(matches!(empty, Err(att::Error::TransferFormat(_))));
    let bad = client.read_request::<u16>(3).ok().unwrap().process_response(&att_packet(vec![0x0B, 2]));
    assert!(matches!(bad, Err(att::Error::TransferFormat(_))));
}

#[test]
fn client_exchanges_mtu() {
    let channel = Recorder::new();
    let mut client = Client::connect(&channel, Some(30)).process_response(&att_packet(vec![0x03, 30, 0])).ok().unwrap();
    assert!(matches!(client.exchange_mtu_request(22), Err(att::Error::TooSmallMtu)));
    let processor = client.exchange_mtu_request(100).ok().unwrap();
    assert_eq!(channel.sent.borrow().last().unwrap(), &vec![0x02, 100, 0]);
    assert!(processor.process_response(&mut client, &att_packet(vec![0x03, 80, 0])).is_ok());
    // the MTU is now 80: 77 bytes of data fit in a write request, 78 do not
    assert!(client.write_request(1, vec![0u8; 77]).is_ok());
    assert!(matches!(client.write_request(1, vec![0u8; 78]), Err(att::Error::MtuExceeded)));
}

#[test]
fn client_custom_commands() {
    let channel = Recorder::new();
    let client = Client::connect(&channel, Some(23)).process_response(&att_packet(vec![0x03, 23, 0])).ok().unwrap();
    let used = client.custom_command(Pdu::new(PduOpCode::from_raw(0x0A), 1u16, None));
    assert!(matches!(used, Err(att::Error::AttUsedOpcode(0x0A))));
    let used_by_server = client.custom_command(Pdu::new(PduOpCode::from_raw(0x1B), 1u16, None));
    assert!(matches!(used_by_server, Err(att::Error::AttUsedOpcode(0x1B))));
    assert!(client.custom_command(Pdu::new(PduOpCode::from_raw(0x30), 0x0201u16, None)).is_ok());
    assert_eq!(channel.sent.borrow().last().unwrap(), &vec![0x30, 1, 2]);
    // a PDU of exactly the MTU fits
    assert!(client.custom_command(Pdu::new(PduOpCode::from_raw(0x30), vec![0u8; 22], None)).is_ok());
    let too_long = client.custom_command(Pdu::new(PduOpCode::from_raw(0x30), vec![0u8; 23], None));
    assert!(matches!(too_long, Err(att::Error::MtuExceeded)));
}

/// The two ends of a connection between a client and a server
struct Link {
    to_server: RefCell<Vec<Vec<u8>>>,
    to_client: RefCell<Vec<Vec<u8>>>,
}

struct ClientEnd(Rc<Link>);

struct ServerEnd(Rc<Link>);

impl ConnectionChannel for ClientEnd {
    fn spec_default_att_mtu() -> u16 {
        23
    }

    fn default_att_mtu() -> u16 {
        23
    }

    fn spec_sent(&self, data: AclData) -> bool {
        self.0.to_server.borrow().iter().any(|s| s.as_slice() == data.get_payload())
    }

    fn send(&self, data: AclData) {
        self.0.to_server.borrow_mut().push(data.into_data());
    }
}

impl ConnectionChannel for ServerEnd {
    fn spec_default_att_mtu() -> u16 {
        23
    }

    fn default_att_mtu() -> u16 {
        23
    }

    fn spec_sent(&self, data: AclData) -> bool {
        self.0.to_client.borrow().iter().any(|s| s.as_slice() == data.get_payload())
    }

    fn send(&self, data: AclData) {
        self.0.to_client.borrow_mut().push(data.into_data());
    }
}

/// The server processes what the client sent, and the client gets the last answer
fn serve(server: &mut Server<ServerEnd>, link: &Link) -> AclData {
    let requests: Vec<Vec<u8>> = link.to_server.borrow_mut().drain(..).collect();
    for bytes in requests {
        server.process_acl_data(&att_packet(bytes)).ok().unwrap();
    }
    att_packet(link.to_client.borrow_mut().pop().unwrap())
}

#[test]
fn test_att_connection() {

    let test_val_1 = 33usize;
    let test_val_2 = 64u64;
    let test_val_3 = -11i8;

    let link = Rc::new(Link { to_server: RefCell::new(Vec::new()), to_client: RefCell::new(Vec::new()) });
    let client_end = ClientEnd(link.clone());

    let mut server = Server::new(ServerEnd(link.clone()), Some(256), None);
    assert_eq!(server.push(Attribute::new(UUID::from_u16(1), vec![Read, Write], 0usize)), 1);
    assert_eq!(server.push(Attribute::new(UUID::from_u16(2), vec![Read, Write], 0u64)), 2);
    assert_eq!(server.push(Attribute::new(UUID::from_u16(3), vec![Read, Write], 0i8)), 3);

    let connecting = Client::connect(&client_end, Some(512));
    let client = connecting.process_response(&serve(&mut server, &link)).ok().expect("connect response");
    // the client asked for 512, the server takes at most 256
    assert_eq!(server.get_mtu(), 256);

    let w1 = client.write_request(1, test_val_1).ok().unwrap();
    w1.process_response(&serve(&mut server, &link)).ok().expect("w1 response");
    let w2 = client.write_request(2, test_val_2).ok().unwrap();
    w2.process_response(&serve(&mut server, &link)).ok().expect("w2 response");
    let w3 = client.write_request(3, test_val_3).ok().unwrap();
    w3.process_response(&serve(&mut server, &link)).ok().expect("w3 response");

    let r1 = client.read_request::<usize>(1).ok().unwrap();
    let read_val_1 = r1.process_response(&serve(&mut server, &link)).ok().expect("r1 response");
    let r2 = client.read_request::<u64>(2).ok().unwrap();
    let read_val_2 = r2.process_response(&serve(&mut server, &link)).ok().expect("r2 response");
    let r3 = client.read_request::<i8>(3).ok().unwrap();
    let read_val_3 = r3.process_response(&serve(&mut server, &link)).ok().expect("r3 response");

    let kill_opcode = 0xFFu8;
    client.custom_command(Pdu::new(PduOpCode::from_raw(kill_opcode), 0u8, None)).ok().expect("kill opcode");
    let kill = att_packet(link.to_server.borrow_mut().pop().unwrap());
    assert!(matches!(server.process_acl_data(&kill), Err(att::Error::UnknownOpcode(op)) if op == kill_opcode));

    assert_eq!(test_val_1, read_val_1);
    assert_eq!(test_val_2, read_val_2);
    assert_eq!(test_val_3, read_val_3);
}

#[test]
fn request_parameters_roundtrip() {
    let short = pdu::TypeRequest { handle_range: HandleRange::new(1, 0x20), attr_type: UUID::from_u16(0x2800) };
    let raw = TransferFormat::into(&short);
    assert_eq!(raw, vec![1, 0, 0x20, 0, 0x00, 0x28]);
    let read = <pdu::TypeRequest as TransferFormat>::from(&raw).ok().unwrap();
    assert_eq!(read.handle_range, short.handle_range);
    assert_eq!(read.attr_type.into_u128(), short.attr_type.into_u128());

    let long = pdu::TypeRequest { handle_range: HandleRange::new(3, 4), attr_type: UUID::from_u128(99) };
    let raw = TransferFormat::into(&long);
    assert_eq!(raw.len(), 20);
    assert_eq!(<pdu::TypeRequest as TransferFormat>::from(&raw).ok().unwrap().attr_type.into_u128(), 99);

    let blob = pdu::BlobRequest { handle: 0x0102, offset: 7 };
    let raw = TransferFormat::into(&blob);
    assert_eq!(raw, vec![2, 1, 7, 0]);
    assert_eq!(<pdu::BlobRequest as TransferFormat>::from(&raw).ok(), Some(blob));

    let entry = pdu::TypeValueResponse::new(5, 9);
    assert_eq!(<pdu::TypeValueResponse as TransferFormat>::from(&TransferFormat::into(&entry)).ok(), Some(entry));

    let write = pdu::HandleWithData { handle: 4, data: 0x0506u16 };
    let raw = TransferFormat::into(&write);
    assert_eq!(raw, vec![4, 0, 6, 5]);
    let read = <pdu::HandleWithData<u16> as TransferFormat>::from(&raw).ok().unwrap();
    assert_eq!((read.handle, read.data), (4, 0x0506));

    let prepare = pdu::PrepareWriteRequest { handle: 4, offset: 2, data: 9u8 };
    let raw = TransferFormat::into(&prepare);
    assert_eq!(raw, vec![4, 0, 2, 0, 9]);
    let read = <pdu::PrepareWriteRequest<u8> as TransferFormat>::from(&raw).ok().unwrap();
    assert_eq!((read.handle, read.offset, read.data), (4, 2, 9));
}

#[test]
fn find_information_response_roundtrip() {
    let short = [
        pdu::HandleWithType::new(1, UUID::from_u16(0x2800)),
        pdu::HandleWithType::new(2, UUID::from_u16(0x2a19)),
    ];
    let raw = TransferFormat::into(&pdu::FormattedHandlesWithType::new(&short));
    assert_eq!(raw, vec![1, 1, 0, 0x00, 0x28, 2, 0, 0x19, 0x2a]);
    let read = <pdu::FormattedHandlesWithType as TransferFormat>::from(&raw).ok().unwrap();
    assert_eq!(read.handles_with_types(), &short);

    let mixed = [
        pdu::HandleWithType::new(3, UUID::from_u16(0x2800)),
        pdu::HandleWithType::new(4, UUID::from_u128(0x0102)),
    ];
    let raw = TransferFormat::into(&pdu::FormattedHandlesWithType::new(&mixed));
    assert_eq!(raw.len(), 1 + 2 * 18);
    assert_eq!(raw[0], 2);
    let read = <pdu::FormattedHandlesWithType as TransferFormat>::from(&raw).ok().unwrap();
    assert_eq!(read.handles_with_types(), &mixed);
    assert!(<pdu::FormattedHandlesWithType as TransferFormat>::from(&raw[..20]).is_err());
}

#[test]
fn type_responses_roundtrip() {
    let entry = pdu::ReadTypeResponse::new(3, 0x0405u16);
    let raw = TransferFormat::into(&entry);
    assert_eq!(raw, vec![3, 0, 5, 4]);
    let read = <pdu::ReadTypeResponse<u16> as TransferFormat>::from(&raw).ok().unwrap();
    assert_eq!((read.handle, read.data), (3, 0x0405));
    assert!(<pdu::ReadTypeResponse<u16> as TransferFormat>::from(&raw[..3]).is_err());

    let group = pdu::ReadGroupTypeResponse::new(6, 8, 0x180fu16);
    let raw = TransferFormat::into(&group);
    assert_eq!(raw, vec![6, 0, 8, 0, 0x0f, 0x18]);
    let read = <pdu::ReadGroupTypeResponse<u16> as TransferFormat>::from(&raw).ok().unwrap();
    assert_eq!((read.handle, read.end_group_handle, read.data), (6, 8, 0x180f));
}
