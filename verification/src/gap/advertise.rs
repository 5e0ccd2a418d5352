//! Advertising data
//!
//! This contains the advertising data types used for the advertising packet. See Vol 3, Part C
//! section 11 of the Bluetooth Specification for more details on this.
//!
//! The raw form of a data structure is its length byte, its data type, and its data; the length
//! counts the data type and the data.
use vstd::prelude::*;

pub mod flags;
pub mod service_class_uuid;
pub mod service_data;
pub mod local_name;

verus! {

/// The assigned numbers of the advertising data types
#[derive(Clone, Copy, Debug, PartialEq, Eq, Structural)]
pub enum AssignedTypes {
    Flags,
    IncompleteListOf16bitServiceClassUUIDs,
    CompleteListOf16bitServiceClassUUIDs,
    IncompleteListOf32bitServiceClassUUIDs,
    CompleteListOf32bitServiceClassUUIDs,
    IncompleteListOf128bitServiceClassUUIDs,
    CompleteListOf128bitServiceClassUUIDs,
    ShortenedLocalName,
    CompleteLocalName,
    TxPowerLevel,
    ClassOfDevice,
    SimplePairingHashC,
    SimplePairingHashC192,
    SimplePairingRandomizerR,
    SimplePairingRandomizerR192,
    DeviceID,
    SecurityManagerTKValue,
    SecurityManagerOutOfBandFlags,
    SlaveConnectionIntervalRange,
    ListOf16bitServiceSolicitationUUIDs,
    ListOf128bitServiceSolicitationUUIDs,
    ServiceData,
    ServiceData16BitUUID,
    PublicTargetAddress,
    RandomTargetAddress,
    Appearance,
    AdvertisingInterval,
    LEBluetoothDeviceAddress,
    LERole,
    SimplePairingHashC256,
    SimplePairingRandomizerR256,
    ListOf32bitServiceSolicitationUUIDs,
    ServiceData32BitUUID,
    ServiceData128BitUUID,
    LESecureConnectionsConfirmationValue,
    LESecureConnectionsRandomValue,
    URI,
    IndoorPositioning,
    TransportDiscoveryData,
    LESupportedFeatures,
    ChannelMapUpdateIndication,
    PBADV,
    MeshMessage,
    MeshBeacon,
    _3DInformationData,
    ManufacturerSpecificData,
}

/// The assigned number of a data type
pub open spec fn spec_assigned_type_val(t: AssignedTypes) -> u8 {
    match t {
        AssignedTypes::Flags => 0x01,
        AssignedTypes::IncompleteListOf16bitServiceClassUUIDs => 0x02,
        AssignedTypes::CompleteListOf16bitServiceClassUUIDs => 0x03,
        AssignedTypes::IncompleteListOf32bitServiceClassUUIDs => 0x04,
        AssignedTypes::CompleteListOf32bitServiceClassUUIDs => 0x05,
        AssignedTypes::IncompleteListOf128bitServiceClassUUIDs => 0x06,
        AssignedTypes::CompleteListOf128bitServiceClassUUIDs => 0x07,
        AssignedTypes::ShortenedLocalName => 0x08,
        AssignedTypes::CompleteLocalName => 0x09,
        AssignedTypes::TxPowerLevel => 0x0A,
        AssignedTypes::ClassOfDevice => 0x0D,
        AssignedTypes::SimplePairingHashC => 0x0E,
        AssignedTypes::SimplePairingHashC192 => 0x0E,
        AssignedTypes::SimplePairingRandomizerR => 0x0F,
        AssignedTypes::SimplePairingRandomizerR192 => 0x0F,
        AssignedTypes::DeviceID => 0x10,
        AssignedTypes::SecurityManagerTKValue => 0x10,
        AssignedTypes::SecurityManagerOutOfBandFlags => 0x11,
        AssignedTypes::SlaveConnectionIntervalRange => 0x12,
        AssignedTypes::ListOf16bitServiceSolicitationUUIDs => 0x14,
        AssignedTypes::ListOf128bitServiceSolicitationUUIDs => 0x15,
        AssignedTypes::ServiceData => 0x16,
        AssignedTypes::ServiceData16BitUUID => 0x16,
        AssignedTypes::PublicTargetAddress => 0x17,
        AssignedTypes::RandomTargetAddress => 0x18,
        AssignedTypes::Appearance => 0x19,
        AssignedTypes::AdvertisingInterval => 0x1A,
        AssignedTypes::LEBluetoothDeviceAddress => 0x1B,
        AssignedTypes::LERole => 0x1C,
        AssignedTypes::SimplePairingHashC256 => 0x1D,
        AssignedTypes::SimplePairingRandomizerR256 => 0x1E,
        AssignedTypes::ListOf32bitServiceSolicitationUUIDs => 0x1F,
        AssignedTypes::ServiceData32BitUUID => 0x20,
        AssignedTypes::ServiceData128BitUUID => 0x21,
        AssignedTypes::LESecureConnectionsConfirmationValue => 0x22,
        AssignedTypes::LESecureConnectionsRandomValue => 0x23,
        AssignedTypes::URI => 0x24,
        AssignedTypes::IndoorPositioning => 0x25,
        AssignedTypes::TransportDiscoveryData => 0x26,
        AssignedTypes::LESupportedFeatures => 0x27,
        AssignedTypes::ChannelMapUpdateIndication => 0x28,
        AssignedTypes::PBADV => 0x29,
        AssignedTypes::MeshMessage => 0x2A,
        AssignedTypes::MeshBeacon => 0x2B,
        AssignedTypes::_3DInformationData => 0x3D,
        AssignedTypes::ManufacturerSpecificData => 0xFF,
    }
}

impl AssignedTypes {
    /// The assigned number of the data type
    pub fn val(&self) -> (r: u8)
        ensures
            r == spec_assigned_type_val(*self),
    {
        match *self {
            AssignedTypes::Flags => 0x01,
            AssignedTypes::IncompleteListOf16bitServiceClassUUIDs => 0x02,
            AssignedTypes::CompleteListOf16bitServiceClassUUIDs => 0x03,
            AssignedTypes::IncompleteListOf32bitServiceClassUUIDs => 0x04,
            AssignedTypes::CompleteListOf32bitServiceClassUUIDs => 0x05,
            AssignedTypes::IncompleteListOf128bitServiceClassUUIDs => 0x06,
            AssignedTypes::CompleteListOf128bitServiceClassUUIDs => 0x07,
            AssignedTypes::ShortenedLocalName => 0x08,
            AssignedTypes::CompleteLocalName => 0x09,
            AssignedTypes::TxPowerLevel => 0x0A,
            AssignedTypes::ClassOfDevice => 0x0D,
            AssignedTypes::SimplePairingHashC => 0x0E,
            AssignedTypes::SimplePairingHashC192 => 0x0E,
            AssignedTypes::SimplePairingRandomizerR => 0x0F,
            AssignedTypes::SimplePairingRandomizerR192 => 0x0F,
            AssignedTypes::DeviceID => 0x10,
            AssignedTypes::SecurityManagerTKValue => 0x10,
            AssignedTypes::SecurityManagerOutOfBandFlags => 0x11,
            AssignedTypes::SlaveConnectionIntervalRange => 0x12,
            AssignedTypes::ListOf16bitServiceSolicitationUUIDs => 0x14,
            AssignedTypes::ListOf128bitServiceSolicitationUUIDs => 0x15,
            AssignedTypes::ServiceData => 0x16,
            AssignedTypes::ServiceData16BitUUID => 0x16,
            AssignedTypes::PublicTargetAddress => 0x17,
            AssignedTypes::RandomTargetAddress => 0x18,
            AssignedTypes::Appearance => 0x19,
            AssignedTypes::AdvertisingInterval => 0x1A,
            AssignedTypes::LEBluetoothDeviceAddress => 0x1B,
            AssignedTypes::LERole => 0x1C,
            AssignedTypes::SimplePairingHashC256 => 0x1D,
            AssignedTypes::SimplePairingRandomizerR256 => 0x1E,
            AssignedTypes::ListOf32bitServiceSolicitationUUIDs => 0x1F,
            AssignedTypes::ServiceData32BitUUID => 0x20,
            AssignedTypes::ServiceData128BitUUID => 0x21,
            AssignedTypes::LESecureConnectionsConfirmationValue => 0x22,
            AssignedTypes::LESecureConnectionsRandomValue => 0x23,
            AssignedTypes::URI => 0x24,
            AssignedTypes::IndoorPositioning => 0x25,
            AssignedTypes::TransportDiscoveryData => 0x26,
            AssignedTypes::LESupportedFeatures => 0x27,
            AssignedTypes::ChannelMapUpdateIndication => 0x28,
            AssignedTypes::PBADV => 0x29,
            AssignedTypes::MeshMessage => 0x2A,
            AssignedTypes::MeshBeacon => 0x2B,
            AssignedTypes::_3DInformationData => 0x3D,
            AssignedTypes::ManufacturerSpecificData => 0xFF,
        }
    }
}

/// The errors of converting raw advertising data
#[derive(Clone, Copy, Debug, PartialEq, Eq, Structural)]
pub enum Error {
    IncorrectDataType,
    IncorrectLength,
    RawTooSmall,
    /// The data is not valid UTF-8
    UTF8Error,
    LeBytesConversionError,
}

impl Error {
    /// A description of the error
    pub fn message(&self) -> (r: &'static str)
        ensures
            r@ == (match *self {
                Error::IncorrectDataType => "Incorrect Data Type Field"@,
                Error::IncorrectLength => "The length of this type is larger than the remaining bytes in the packet"@,
                Error::RawTooSmall => "Raw data length is too small"@,
                Error::UTF8Error => "UTF-8 conversion error"@,
                Error::LeBytesConversionError => "Error converting bytes from le"@,
            }),
    {
        match *self {
            Error::IncorrectDataType => "Incorrect Data Type Field",
            Error::IncorrectLength => "The length of this type is larger than the remaining bytes in the packet",
            Error::RawTooSmall => "Raw data length is too small",
            Error::UTF8Error => "UTF-8 conversion error",
            Error::LeBytesConversionError => "Error converting bytes from le",
        }
    }
}

/// The raw form of a data structure of type `ad_type` with the data `data`: the length byte,
/// which counts the type and the data, then the type and the data
pub open spec fn spec_raw_structure(ad_type: u8, data: Seq<u8>) -> Seq<u8> {
    seq![((data.len() + 2) % 256 - 1) as u8, ad_type] + data
}

/// Whether a data structure with `data_len` bytes of data has a raw form whose length its
/// length byte can hold
pub open spec fn spec_fits(data_len: nat) -> bool {
    (data_len + 2) % 256 != 0
}

/// Create a new raw buffer for a data type
///
/// This initializes a raw vector with the length and type fields.
pub fn new_raw_type(ad_type: u8) -> (r: Vec<u8>)
    ensures
        r@ == seq![0u8, ad_type],
{
    let mut v: Vec<u8> = Vec::new();
    v.push(0);
    v.push(ad_type);
    assert(v@ =~= seq![0u8, ad_type]);
    v
}

/// Set the length byte of a raw buffer: the number of bytes after it
pub fn set_len(buf: &mut Vec<u8>)
    requires
        old(buf)@.len() >= 1,
        old(buf)@.len() % 256 != 0,
    ensures
        final(buf)@ == old(buf)@.update(0, ((old(buf)@.len() % 256) - 1) as u8),
{
    let len = buf.len();
    let len_byte: u8 = (len % 256) as u8;
    buf.set(0, len_byte - 1);
}

/// A trait for converting an Advertising Data Structure into its raw (byte slice) form
pub trait IntoRaw: Sized {
    /// Whether the raw form has a length that its length byte can hold
    spec fn spec_fits_raw(&self) -> bool;

    /// The raw form
    spec fn spec_into_raw(&self) -> Seq<u8>;

    /// Convert the data into a vector of bytes
    ///
    /// This converts the data into the form that will be passed from devices over the air.
    fn into_raw(&self) -> (r: Vec<u8>)
        requires
            self.spec_fits_raw(),
        ensures
            r@ == self.spec_into_raw();
}

/// A trait for attempting to convert a slice of bytes into an Advertising Data Structure
pub trait TryFromRaw: Sized {
    /// Whether `r` is what the data portion `raw` converts to
    spec fn spec_from_raw(raw: Seq<u8>, r: Result<Self, Error>) -> bool;

    /// Attempt to convert the data from its raw form into this type
    ///
    /// Takes the data portion of one raw advertising or extended inquiry struct and converts
    /// it into this data type. An error is returned if the raw data cannot be converted into
    /// this type.
    ///
    /// `raw` is a single data portion *without* the length byte; it starts with the type id.
    /// Its length is bounded so that each bit of it has a position that fits in a `usize`.
    fn try_from_raw(raw: &[u8]) -> (r: Result<Self, Error>)
        requires
            raw@.len() <= usize::MAX / 8,
        ensures
            Self::spec_from_raw(raw@, r);
}

/// The error of raw data whose type is not `ad_type`: too small where it is empty, an
/// incorrect data type otherwise
pub open spec fn spec_type_error(raw: Seq<u8>) -> Error {
    if raw.len() == 0 { Error::RawTooSmall } else { Error::IncorrectDataType }
}

/// The error returned when advertising data does not fit in the advertising packet
pub struct DataTooLargeError {
    pub(crate) overflow: usize,
    pub(crate) remaining: usize,
}

impl View for DataTooLargeError {
    /// The overflow and the remaining bytes
    type V = (usize, usize);

    closed spec fn view(&self) -> (usize, usize) {
        (self.overflow, self.remaining)
    }
}

impl DataTooLargeError {
    /// The number of bytes that would overflow the advertising packet buffer
    pub fn overflow(&self) -> (r: usize)
        ensures
            r == self@.0,
    {
        self.overflow
    }

    /// The number of bytes remaining in the advertising buffer at the time that this error was
    /// generated.
    pub fn remaining(&self) -> (r: usize)
        ensures
            r == self@.1,
    {
        self.remaining
    }

    /// A description of the error
    pub fn message(&self) -> (r: &'static str)
        ensures
            r@ == "Advertising Data Too Large"@,
    {
        "Advertising Data Too Large"
    }
}

} // verus!
