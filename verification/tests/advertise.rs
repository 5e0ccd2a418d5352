use lib::gap::advertise::flags::{CoreFlags, Flags, FlagType};
use lib::gap::advertise::local_name::LocalName;
use lib::gap::advertise::service_class_uuid::{new_16, new_128, new_32, Services};
use lib::gap::advertise::service_data::{self, ServiceData};
use lib::gap::advertise::{AssignedTypes, Error, IntoRaw, TryFromRaw};
use lib::android::le::scan::ScanRecord;

#[test]
fn into_raw_test() {
    let mut flags = Flags::new();

    flags.get_core(CoreFlags::LELimitedDiscoverableMode).enable(&mut flags);
    flags.get_user(0).enable(&mut flags);

    let raw = flags.into_raw();

    assert_eq!(vec![1u8, 1u8], raw);
}

#[test]
fn from_raw_test() {
    let d_type = AssignedTypes::Flags.val();

    let packet = [4u8, d_type, 3u8, 8u8, 7u8];

    let mut flags = Flags::try_from_raw(&packet[1..]).unwrap();

    assert!(flags.get_core(CoreFlags::LELimitedDiscoverableMode).get(&flags));
    assert!(flags.get_core(CoreFlags::LEGeneralDiscoverableMode).get(&flags));
    assert!(flags.get_user(3).get(&flags));
    assert!(flags.get_user(8).get(&flags));
    assert!(flags.get_user(9).get(&flags));
    assert!(flags.get_user(10).get(&flags));
}

#[test]
fn flags_unset_bits_are_not_read() {
    let packet = [AssignedTypes::Flags.val(), 3u8, 8u8, 7u8];
    let mut flags = Flags::try_from_raw(&packet).unwrap();
    assert!(!flags.get_core(CoreFlags::BREDRNotSupported).get(&flags));
    assert!(!flags.get_user(0).get(&flags));
    assert!(!flags.get_user(11).get(&flags));
    let all = flags.iter();
    assert_eq!(all.len(), 9);
    assert_eq!(all.iter().filter(|f| f.get(&flags)).count(), 6);
}

#[test]
fn flags_disable_and_set() {
    let mut flags = Flags::new();
    flags.get_user(9).enable(&mut flags);
    assert!(flags.get_user(9).get(&flags));
    flags.get_user(9).disable(&mut flags);
    assert!(!flags.get_user(9).get(&flags));
    flags.get_user(9).set(&mut flags, true);
    assert!(flags.get_user(9).get(&flags));
    // user flag 9 is position 17, the bit 1 of the third octet
    assert_eq!(flags.into_raw(), vec![2u8, 1u8, 2u8]);
}

#[test]
fn flags_pos_kinds() {
    let mut flags = Flags::new();
    assert_eq!(flags.get_core(CoreFlags::BREDRNotSupported).pos(), FlagType::Core(CoreFlags::BREDRNotSupported));
    assert_eq!(flags.get_user(5).pos(), FlagType::User(5));
}

#[test]
fn flags_raw_errors() {
    assert_eq!(Flags::try_from_raw(&[]).err(), Some(Error::RawTooSmall));
    assert_eq!(Flags::try_from_raw(&[0x09, 1]).err(), Some(Error::IncorrectDataType));
}

#[test]
fn local_name_roundtrip() {
    let name = LocalName::new(String::from("bo-tie"), false);
    let raw = name.into_raw();
    assert_eq!(raw, vec![7u8, 0x09, b'b', b'o', b'-', b't', b'i', b'e']);
    let read = LocalName::try_from_raw(&raw[1..]).unwrap();
    assert_eq!(read.as_ref(), "bo-tie");
    assert!(!read.is_short());

    let short = LocalName::new(String::from("bo"), true);
    let raw = short.into_raw();
    assert_eq!(raw, vec![3u8, 0x08, b'b', b'o']);
    assert!(LocalName::try_from_raw(&raw[1..]).unwrap().is_short());
}

#[test]
fn local_name_errors() {
    assert_eq!(LocalName::try_from_raw(&[0x09, 0xff, 0xfe]).err().map(|e| e.message()), Some(Error::UTF8Error.message()));
    assert_eq!(LocalName::try_from_raw(&[0x01, b'a']).err(), Some(Error::IncorrectDataType));
    assert_eq!(LocalName::try_from_raw(&[]).err(), Some(Error::RawTooSmall));
    assert_eq!(LocalName::try_from_raw(&[0x08]).unwrap().into_string(), String::new());
}

#[test]
fn services_from_uuids() {
    let services = Services::<u16>::from_uuids(&[0x1812, 0x180f, 0x1812]);
    assert!(services.is_complete());
    assert_eq!(services.uuids(), &[0x180f, 0x1812]);
    assert_eq!(Services::<u128>::from_uuids(&[]).uuids(), &[] as &[u128]);
    assert!(!services.is_empty());
    assert!(Services::<u128>::from_uuids(&[]).is_empty());
    // an empty list is sent as complete
    let empty = new_16(false);
    assert!(empty.is_empty() && !empty.is_complete());
    assert_eq!(empty.into_raw(), vec![1, 0x03]);
    let mut one = new_16(false);
    one.insert(0x180f);
    assert_eq!(one.into_raw(), vec![3, 0x02, 0x0f, 0x18]);
}

#[test]
fn service_uuids_raw() {
    let mut services: Services<u16> = new_16(true);
    assert!(services.insert(0x1812));
    assert!(services.insert(0x180f));
    assert!(!services.insert(0x1812));
    assert_eq!(services.uuids(), &[0x180f, 0x1812]);
    assert!(services.as_ref().contains(&0x180f));
    assert_eq!(services.as_ref().len(), 2);
    let raw = services.into_raw();
    assert_eq!(raw, vec![5u8, 0x03, 0x0f, 0x18, 0x12, 0x18]);

    let read = Services::<u16>::try_from_raw(&raw[1..]).unwrap();
    assert!(read.is_complete());
    assert_eq!(read.uuids(), &[0x180f, 0x1812]);

    let mut incomplete: Services<u32> = new_32(false);
    incomplete.insert(0x0102_0304);
    assert_eq!(incomplete.into_raw(), vec![5u8, 0x04, 0x04, 0x03, 0x02, 0x01]);

    let empty: Services<u128> = new_128(false);
    assert_eq!(empty.into_raw(), vec![1u8, 0x07]);
}

#[test]
fn service_uuids_ignore_partial_chunk() {
    let read = Services::<u16>::try_from_raw(&[0x02, 0x01, 0x00, 0x05]).unwrap();
    assert!(!read.is_complete());
    assert_eq!(read.uuids(), &[1u16]);
    assert_eq!(Services::<u16>::try_from_raw(&[0x04, 0x01, 0x00]).err(), Some(Error::IncorrectDataType));
}

#[test]
fn service_data_roundtrip() {
    let data: ServiceData<u16> = service_data::new_16(0x180f, vec![0x64]);
    let raw = data.into_raw();
    assert_eq!(raw, vec![4u8, 0x16, 0x0f, 0x18, 0x64]);
    let read = ServiceData::<u16>::try_from_raw(&raw[1..]).unwrap();
    assert_eq!(read.get_uuid(), 0x180f);
    assert_eq!(read.get_serialized_data(), &[0x64]);
    assert_eq!(read.into_serialized_data(), vec![0x64]);
}

#[test]
fn service_data_errors() {
    assert_eq!(ServiceData::<u16>::try_from_raw(&[0x16, 0x01]).err(), Some(Error::RawTooSmall));
    assert_eq!(ServiceData::<u32>::try_from_raw(&[0x16, 1, 2, 3, 4]).err(), Some(Error::IncorrectDataType));
    let read = ServiceData::<u32>::try_from_raw(&[0x20, 1, 2, 3, 4]).unwrap();
    assert_eq!(read.get_uuid(), 0x0403_0201);
    assert_eq!(read.get_serialized_data(), &[] as &[u8]);
}

#[test]
fn scan_record_iteration() {
    let record = ScanRecord::new(vec![3, 0x09, b'h', b'i', 2, 0x01, 0x06, 5, 0x09]);
    let mut iter = record.iter::<LocalName>();
    let first = iter.next().unwrap().unwrap();
    assert_eq!(first.as_ref(), "hi");
    assert_eq!(iter.next().unwrap().err(), Some(Error::IncorrectDataType));
    assert_eq!(iter.next().unwrap().err(), Some(Error::IncorrectLength));
    assert!(iter.next().is_none());
}

#[test]
fn flags_share_state_between_handles() {
    let mut flags = Flags::new();
    let first = flags.get_core(CoreFlags::BREDRNotSupported);
    let second = flags.get_core(CoreFlags::BREDRNotSupported);
    assert_eq!(first, second);
    assert!(!second.get(&flags));
    first.enable(&mut flags);
    assert!(first.get(&flags));
    assert!(second.get(&flags));
    assert!(!flags.get_core(CoreFlags::LELimitedDiscoverableMode).get(&flags));
    second.disable(&mut flags);
    assert!(!first.get(&flags));
    let user = flags.get_user(1);
    let positions: Vec<_> = flags.iter().iter().map(|f| f.pos()).collect();
    assert_eq!(
        positions,
        vec![FlagType::Core(CoreFlags::LELimitedDiscoverableMode), FlagType::Core(CoreFlags::BREDRNotSupported), FlagType::User(1)]
    );
    assert_eq!(user.pos(), FlagType::User(1));
}
