//! Service Data Type
//!
//! The struct `ServiceData` is the data type of a service class UUID paired with service data.
//! The service data is held already serialized.
use vstd::prelude::*;
use super::{AssignedTypes, Error, IntoRaw, TryFromRaw, new_raw_type, set_len, spec_assigned_type_val, spec_type_error};
use super::service_class_uuid::ServiceUuid;
use crate::att::le::{le_bytes, le_value, le_encode};
use crate::att::pdu::concat;

verus! {

/// Service Data
///
/// Contains a UUID along with the corresponding serialized data for that UUID
#[derive(Clone, Debug)]
pub struct ServiceData<T> {
    uuid: T,
    pub(crate) serialized_data: Vec<u8>,
}

impl<T> View for ServiceData<T> {
    /// The UUID and the serialized data
    type V = (T, Seq<u8>);

    closed spec fn view(&self) -> (T, Seq<u8>) {
        (self.uuid, self.serialized_data@)
    }
}

/// Create service data for a 16-bit UUID
pub fn new_16(uuid: u16, serialized_data: Vec<u8>) -> (r: ServiceData<u16>)
    ensures
        r@ == (uuid, serialized_data@),
{
    ServiceData { uuid, serialized_data }
}

/// Create service data for a 32-bit UUID
pub fn new_32(uuid: u32, serialized_data: Vec<u8>) -> (r: ServiceData<u32>)
    ensures
        r@ == (uuid, serialized_data@),
{
    ServiceData { uuid, serialized_data }
}

/// Create service data for a 128-bit UUID
pub fn new_128(uuid: u128, serialized_data: Vec<u8>) -> (r: ServiceData<u128>)
    ensures
        r@ == (uuid, serialized_data@),
{
    ServiceData { uuid, serialized_data }
}

impl<T: Copy> ServiceData<T> {
    /// The UUID
    pub fn get_uuid(&self) -> (r: T)
        ensures
            r == self@.0,
    {
        self.uuid
    }

    /// A reference to the serialized data
    pub fn get_serialized_data(&self) -> (r: &[u8])
        ensures
            r@ == self@.1,
    {
        self.serialized_data.as_slice()
    }

    /// Consume self and get the serialized data
    pub fn into_serialized_data(self) -> (r: Vec<u8>)
        ensures
            r@ == self@.1,
    {
        self.serialized_data
    }
}

impl<T: ServiceUuid> IntoRaw for ServiceData<T> {
    open spec fn spec_fits_raw(&self) -> bool {
        (2 + T::spec_size() + self@.1.len()) % 256 != 0
    }

    /// The raw form: the length, the data type of service data of 16 bit UUIDs, the UUID and
    /// the serialized data
    open spec fn spec_into_raw(&self) -> Seq<u8> {
        let data = le_bytes(self@.0.spec_val() as nat, T::spec_size()) + self@.1;
        seq![((data.len() + 2) % 256 - 1) as u8, spec_assigned_type_val(AssignedTypes::ServiceData)] + data
    }

    fn into_raw(&self) -> (r: Vec<u8>) {
        let raw = new_raw_type(AssignedTypes::ServiceData.val());
        let raw = concat(raw, le_encode(self.uuid.val(), T::size()));
        let mut raw = concat(raw, self.serialized_data.clone());
        proof { crate::att::le::lemma_le_bytes_len(self.uuid.spec_val() as nat, T::spec_size()); }
        set_len(&mut raw);
        assert(raw@ =~= self.spec_into_raw());
        raw
    }
}

impl<T: ServiceUuid> TryFromRaw for ServiceData<T> {
    open spec fn spec_from_raw(raw: Seq<u8>, r: Result<ServiceData<T>, Error>) -> bool {
        &&& (raw.len() == 0 || raw[0] != T::spec_service_data_type() ==> r == Err::<ServiceData<T>, Error>(spec_type_error(raw)))
        &&& (raw.len() > 0 && raw[0] == T::spec_service_data_type() && raw.len() < 1 + T::spec_size()
            ==> r == Err::<ServiceData<T>, Error>(Error::RawTooSmall))
        &&& (raw.len() > 0 && raw[0] == T::spec_service_data_type() && raw.len() >= 1 + T::spec_size() ==> (r matches Ok(d) && {
            &&& d@.0.spec_val() == le_value(raw.subrange(1, 1 + T::spec_size() as int))
            &&& d@.1 == raw.skip(1 + T::spec_size() as int)
        }))
    }

    /// The raw data holds the data type of service data of these UUIDs, the UUID, then the
    /// serialized data
    fn try_from_raw(raw: &[u8]) -> (r: Result<ServiceData<T>, Error>) {
        if raw.len() == 0 {
            return Err(Error::RawTooSmall);
        }
        if raw[0] != T::service_data_type() {
            return Err(Error::IncorrectDataType);
        }
        let size = T::size();
        if raw.len() < 1 + size {
            return Err(Error::RawTooSmall);
        }
        let uuid = T::from_le(vstd::slice::slice_subrange(raw, 1, 1 + size));
        let data = vstd::slice::slice_to_vec(vstd::slice::slice_subrange(raw, 1 + size, raw.len()));
        assert(data@ =~= raw@.skip(1 + T::spec_size() as int));
        Ok(ServiceData { uuid, serialized_data: data })
    }
}

/// Service data of a 16 bit UUID is read back from its raw form: without the length byte, it
/// starts with the type of service data of 16 bit UUIDs, then holds the UUID and the data.
///
/// This does not hold of the 32 and 128 bit UUIDs: their raw form has the type of service data
/// of 16 bit UUIDs.
pub proof fn lemma_service_data_16_roundtrip(d: ServiceData<u16>)
    ensures
        d.spec_into_raw().len() >= 4,
        d.spec_into_raw().skip(1)[0] == <u16 as ServiceUuid>::spec_service_data_type(),
        le_value(d.spec_into_raw().skip(1).subrange(1, 3)) == d@.0,
        d.spec_into_raw().skip(1).skip(3) == d@.1,
        forall|r: Result<ServiceData<u16>, Error>| #[trigger] ServiceData::<u16>::spec_from_raw(d.spec_into_raw().skip(1), r)
            ==> (r matches Ok(x) && x@ == d@),
{
    crate::att::le::lemma_pow256_values();
    crate::att::le::lemma_le_roundtrip(d@.0 as nat, 2);
    crate::att::le::lemma_le_bytes_len(d@.0 as nat, 2);
    let raw = d.spec_into_raw().skip(1);
    assert(raw.subrange(1, 3) =~= le_bytes(d@.0 as nat, 2));
    assert(raw.skip(3) =~= d@.1);
}

} // verus!
