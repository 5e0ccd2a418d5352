//! The values of the Android GATT API
use vstd::prelude::*;

verus! {

/// The priority of a connection
#[derive(Clone, Copy, Debug, PartialEq, Eq, Structural)]
pub enum ConnectionPriority {
    Balanced,
    High,
    LowPower,
}

impl ConnectionPriority {
    /// The value of the priority in the Android API
    pub fn val(&self) -> (r: i32)
        ensures
            r == (match *self {
                ConnectionPriority::Balanced => 0i32,
                ConnectionPriority::High => 1,
                ConnectionPriority::LowPower => 2,
            }),
    {
        match *self {
            ConnectionPriority::Balanced => 0,
            ConnectionPriority::High => 1,
            ConnectionPriority::LowPower => 2,
        }
    }
}

/// The properties of a characteristic
#[derive(Clone, Copy, Debug, PartialEq, Eq, Structural)]
pub enum CharacteristicProperties {
    Broadcast,
    Read,
    WriteWithoutResponse,
    Write,
    Notify,
    Indicate,
    AuthenticatedSignedWrites,
    ExtendedProperties,
}

/// The value of a characteristic property in the Android API
pub open spec fn spec_property_val(p: CharacteristicProperties) -> i32 {
    match p {
        CharacteristicProperties::Broadcast => 0x1,
        CharacteristicProperties::Read => 0x2,
        CharacteristicProperties::WriteWithoutResponse => 0x4,
        CharacteristicProperties::Write => 0x8,
        CharacteristicProperties::Notify => 0x10,
        CharacteristicProperties::Indicate => 0x20,
        CharacteristicProperties::AuthenticatedSignedWrites => 0x40,
        CharacteristicProperties::ExtendedProperties => 0x80,
    }
}

/// Whether `val` is the value of a characteristic property
pub open spec fn spec_is_property_val(val: i32) -> bool {
    val == 0x1 || val == 0x2 || val == 0x4 || val == 0x8 || val == 0x10 || val == 0x20 || val == 0x40 || val == 0x80
}

/// The properties whose bits are set in `field` among the lowest `n` bits, lowest bit first
pub open spec fn spec_properties_of_field(field: i32, n: int) -> Seq<CharacteristicProperties>
    decreases n,
{
    if n <= 0 {
        Seq::empty()
    } else {
        let prev = spec_properties_of_field(field, n - 1);
        let bit = field & (1i32 << ((n - 1) as u32));
        if bit != 0 {
            prev.push(choose|p: CharacteristicProperties| spec_property_val(p) == bit)
        } else {
            prev
        }
    }
}

impl CharacteristicProperties {
    /// The value of the property in the Android API
    pub fn val(&self) -> (r: i32)
        ensures
            r == spec_property_val(*self),
    {
        match *self {
            CharacteristicProperties::Broadcast => 0x1,
            CharacteristicProperties::Read => 0x2,
            CharacteristicProperties::WriteWithoutResponse => 0x4,
            CharacteristicProperties::Write => 0x8,
            CharacteristicProperties::Notify => 0x10,
            CharacteristicProperties::Indicate => 0x20,
            CharacteristicProperties::AuthenticatedSignedWrites => 0x40,
            CharacteristicProperties::ExtendedProperties => 0x80,
        }
    }

    /// The property of a value of the Android API
    pub fn from_val(val: i32) -> (r: CharacteristicProperties)
        requires
            spec_is_property_val(val),
        ensures
            spec_property_val(r) == val,
    {
        match val {
            0x1 => CharacteristicProperties::Broadcast,
            0x2 => CharacteristicProperties::Read,
            0x4 => CharacteristicProperties::WriteWithoutResponse,
            0x8 => CharacteristicProperties::Write,
            0x10 => CharacteristicProperties::Notify,
            0x20 => CharacteristicProperties::Indicate,
            0x40 => CharacteristicProperties::AuthenticatedSignedWrites,
            _ => CharacteristicProperties::ExtendedProperties,
        }
    }

    /// The properties whose bits are set in a bit field of the Android API, lowest bit first
    pub fn from_bit_field(field: i32) -> (r: Vec<CharacteristicProperties>)
        requires
            0 <= field < 0x100,
        ensures
            r@ == spec_properties_of_field(field, 32),
    {
        let mut v: Vec<CharacteristicProperties> = Vec::new();
        let mut s: u32 = 0;
        while s < 32
            invariant
                0 <= s <= 32,
                0 <= field < 0x100,
                v@ == spec_properties_of_field(field, s as int),
            decreases 32 - s,
        {
            let f = field & (1i32 << s);
            if f != 0 {
                assert(spec_is_property_val(f)) by (bit_vector)
                    requires
                        0 <= field < 0x100,
                        0 <= s < 32,
                        f == field & (1i32 << s),
                        f != 0;
                let p = CharacteristicProperties::from_val(f);
                v.push(p);
            }
            s += 1;
        }
        v
    }
}

/// The permissions of a characteristic or a descriptor
#[derive(Clone, Copy, Debug, PartialEq, Eq, Structural)]
pub enum Permissions {
    Read,
    ReadEncrypted,
    /// Encrypted read with man in the middle protection
    ReadEncryptedMITM,
    Write,
    WriteEncrypted,
    /// Encrypted write with man in the middle protection
    WriteEncryptedMITM,
    WriteSigned,
    /// Signed write with man in the middle protection
    WriteSignedMITM,
}

/// The value of a permission in the Android API
pub open spec fn spec_permission_val(p: Permissions) -> i32 {
    match p {
        Permissions::Read => 0x1,
        Permissions::ReadEncrypted => 0x2,
        Permissions::ReadEncryptedMITM => 0x4,
        Permissions::Write => 0x10,
        Permissions::WriteEncrypted => 0x20,
        Permissions::WriteEncryptedMITM => 0x40,
        Permissions::WriteSigned => 0x80,
        Permissions::WriteSignedMITM => 0x100,
    }
}

/// Whether `val` is the value of a permission
pub open spec fn spec_is_permission_val(val: i32) -> bool {
    val == 0x1 || val == 0x2 || val == 0x4 || val == 0x10 || val == 0x20 || val == 0x40 || val == 0x80 || val == 0x100
}

/// The permissions whose bits are set in `field` among the lowest `n` bits, lowest bit first
pub open spec fn spec_permissions_of_field(field: i32, n: int) -> Seq<Permissions>
    decreases n,
{
    if n <= 0 {
        Seq::empty()
    } else {
        let prev = spec_permissions_of_field(field, n - 1);
        let bit = field & (1i32 << ((n - 1) as u32));
        if bit != 0 {
            prev.push(choose|p: Permissions| spec_permission_val(p) == bit)
        } else {
            prev
        }
    }
}

impl Permissions {
    /// The value of the permission in the Android API
    pub fn val(&self) -> (r: i32)
        ensures
            r == spec_permission_val(*self),
    {
        match *self {
            Permissions::Read => 0x1,
            Permissions::ReadEncrypted => 0x2,
            Permissions::ReadEncryptedMITM => 0x4,
            Permissions::Write => 0x10,
            Permissions::WriteEncrypted => 0x20,
            Permissions::WriteEncryptedMITM => 0x40,
            Permissions::WriteSigned => 0x80,
            Permissions::WriteSignedMITM => 0x100,
        }
    }

    /// The permission of a value of the Android API
    pub fn from_val(val: i32) -> (r: Permissions)
        requires
            spec_is_permission_val(val),
        ensures
            spec_permission_val(r) == val,
    {
        match val {
            0x1 => Permissions::Read,
            0x2 => Permissions::ReadEncrypted,
            0x4 => Permissions::ReadEncryptedMITM,
            0x10 => Permissions::Write,
            0x20 => Permissions::WriteEncrypted,
            0x40 => Permissions::WriteEncryptedMITM,
            0x80 => Permissions::WriteSigned,
            _ => Permissions::WriteSignedMITM,
        }
    }

    /// The permissions whose bits are set in a bit field of the Android API, lowest bit first
    ///
    /// Bit 3 and the bits above bit 8 name no permission.
    pub fn from_bit_field(field: i32) -> (r: Vec<Permissions>)
        requires
            0 <= field < 0x200,
            field & 0x8 == 0,
        ensures
            r@ == spec_permissions_of_field(field, 32),
    {
        let mut v: Vec<Permissions> = Vec::new();
        let mut s: u32 = 0;
        while s < 32
            invariant
                0 <= s <= 32,
                0 <= field < 0x200,
                field & 0x8 == 0,
                v@ == spec_permissions_of_field(field, s as int),
            decreases 32 - s,
        {
            let f = field & (1i32 << s);
            if f != 0 {
                assert(spec_is_permission_val(f)) by (bit_vector)
                    requires
                        0 <= field < 0x200,
                        field & 0x8 == 0,
                        0 <= s < 32,
                        f == field & (1i32 << s),
                        f != 0;
                let p = Permissions::from_val(f);
                v.push(p);
            }
            s += 1;
        }
        v
    }
}

/// The state of a connection
#[derive(Clone, Copy, Debug, PartialEq, Eq, Structural)]
pub enum ConnectionState {
    Disconnected,
    Connected,
}

impl ConnectionState {
    /// The state of a value of the Android API, or the value where it names none
    pub fn from_raw(raw: i32) -> (r: Result<ConnectionState, i32>)
        ensures
            raw == 0 ==> r == Ok::<ConnectionState, i32>(ConnectionState::Disconnected),
            raw == 2 ==> r == Ok::<ConnectionState, i32>(ConnectionState::Connected),
            raw != 0 && raw != 2 ==> r == Err::<ConnectionState, i32>(raw),
    {
        match raw {
            // BluetoothProfile.STATE_DISCONNECTED
            0 => Ok(ConnectionState::Disconnected),
            // BluetoothProfile.STATE_CONNECTED
            2 => Ok(ConnectionState::Connected),
            _ => Err(raw),
        }
    }
}

} // verus!
