use lib::android::gatt::{CharacteristicProperties, ConnectionPriority, ConnectionState, Permissions};
use lib::android::{Phy, PhyCodedType};
use lib::linux::{CtrlMsgType, EPollResult, PacketBuffer, TimeoutError, TimeoutManager, LIMITED_CAPACITY};

#[test]
fn epoll_ids_roundtrip() {
    assert_eq!(EPollResult::from_id(0), EPollResult::BluetoothController);
    assert_eq!(EPollResult::from_id(1), EPollResult::TaskExit);
    let id = EPollResult::make_timeout_id(5);
    assert_eq!(id, 7);
    assert_eq!(EPollResult::from_id(id), EPollResult::Timeout(7));
    for id in [0u64, 1, 2, 9, u64::MAX] {
        assert_eq!(EPollResult::from_id(id).into_id(), id);
    }
}

#[test]
fn control_message_types() {
    assert_eq!(CtrlMsgType::try_from(0x01), Ok(CtrlMsgType::Command));
    assert_eq!(CtrlMsgType::try_from(0x02), Ok(CtrlMsgType::ACLData));
    assert_eq!(CtrlMsgType::try_from(0x03), Ok(CtrlMsgType::SyncData));
    assert_eq!(CtrlMsgType::try_from(0x04), Ok(CtrlMsgType::Event));
    assert_eq!(CtrlMsgType::try_from(0x05), Err(()));
    assert_eq!(CtrlMsgType::try_from(0x00), Err(()));
    for raw in 1..=4u8 {
        assert_eq!(CtrlMsgType::try_from(raw).unwrap().into_raw(), raw);
    }
}

#[test]
fn limited_buffer_keeps_the_last_packets() {
    let mut buffer = PacketBuffer::new_limited();
    for i in 0..(LIMITED_CAPACITY as u32 + 5) {
        buffer.add(i);
    }
    let expected: Vec<u32> = (5..(LIMITED_CAPACITY as u32 + 5)).collect();
    assert_eq!(buffer.get(), expected);
    assert!(buffer.get().is_empty());
    buffer.add(1000);
    assert_eq!(buffer.get(), vec![1000]);
}

#[test]
fn unlimited_buffer_keeps_every_packet() {
    let mut buffer = PacketBuffer::new_limited();
    for i in 0..(LIMITED_CAPACITY as u32 + 3) {
        buffer.add(i);
    }
    let mut buffer = buffer.into_unlimited();
    buffer.add(7777);
    let mut expected: Vec<u32> = (3..(LIMITED_CAPACITY as u32 + 3)).collect();
    expected.push(7777);
    assert_eq!(buffer.get(), expected);

    let mut unlimited = PacketBuffer::new_unlimited();
    for i in 0..250u32 {
        unlimited.add(i);
    }
    assert_eq!(unlimited.get(), (0..250u32).collect::<Vec<u32>>());
}

#[test]
fn android_values() {
    assert_eq!(Phy::from_raw(1), Ok(Phy::OneMbs));
    assert_eq!(Phy::from_raw(3), Ok(Phy::Coded));
    assert_eq!(Phy::from_raw(4), Err(4));
    assert_eq!(Phy::TwoMbs.val(), 2);
    assert_eq!(PhyCodedType::val_from_opt(None), 0);
    assert_eq!(PhyCodedType::val_from_opt(Some(PhyCodedType::Coded8M)), 2);
    assert_eq!(ConnectionPriority::LowPower.val(), 2);
    assert_eq!(ConnectionState::from_raw(2), Ok(ConnectionState::Connected));
    assert_eq!(ConnectionState::from_raw(0), Ok(ConnectionState::Disconnected));
    assert_eq!(ConnectionState::from_raw(1), Err(1));
}

#[test]
fn android_bit_fields() {
    assert_eq!(
        CharacteristicProperties::from_bit_field(0x1A),
        vec![CharacteristicProperties::Read, CharacteristicProperties::Write, CharacteristicProperties::Notify]
    );
    assert_eq!(CharacteristicProperties::from_bit_field(0), vec![]);
    assert_eq!(CharacteristicProperties::Indicate.val(), 0x20);
    assert_eq!(
        Permissions::from_bit_field(0x111),
        vec![Permissions::Read, Permissions::Write, Permissions::WriteSignedMITM]
    );
    assert_eq!(Permissions::WriteEncrypted.val(), 0x20);
    assert_eq!(Permissions::from_val(0x80), Permissions::WriteSigned);
}

#[test]
fn timeouts_are_registered_by_id() {
    let mut timeouts = TimeoutManager::new();
    let id = EPollResult::make_timeout_id(3);
    assert_eq!(timeouts.add(id, "first"), Ok(()));
    assert_eq!(timeouts.add(id, "second"), Err(TimeoutError::AlreadyExists));
    assert_eq!(timeouts.add(id + 1, "other"), Ok(()));
    assert_eq!(timeouts.remove(id), Ok("first"));
    assert_eq!(timeouts.remove(id), Err(TimeoutError::DoesNotExist));
    assert_eq!(timeouts.remove(id + 1), Ok("other"));
    assert_eq!(TimeoutError::DoesNotExist.message(), "Timeout ID doesn't exist");
}
