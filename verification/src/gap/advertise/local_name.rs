//! Local name data type
use vstd::prelude::*;
use vstd::utf8::{valid_utf8, decode_utf8, encode_utf8};
use super::{AssignedTypes, Error, IntoRaw, TryFromRaw, new_raw_type, set_len, spec_assigned_type_val, spec_type_error};
use crate::att::pdu::concat;

verus! {

/// The name of the device, complete or shortened
pub struct LocalName {
    name: String,
    is_short: bool,
}

impl View for LocalName {
    /// The name and whether it is shortened
    type V = (Seq<char>, bool);

    closed spec fn view(&self) -> (Seq<char>, bool) {
        (self.name@, self.is_short)
    }
}

impl LocalName {
    /// Create a new local name data type
    ///
    /// If the name is 'short' then set the `short` parameter to true.
    /// See the Bluetooth Core Supplement Spec. section 1.2.1 for more details.
    pub fn new(name: String, short: bool) -> (r: LocalName)
        ensures
            r@ == (name@, short),
    {
        LocalName { name, is_short: short }
    }

    /// Whether the name is shortened
    pub fn is_short(&self) -> (r: bool)
        ensures
            r == self@.1,
    {
        self.is_short
    }

    /// The name
    pub fn as_ref(&self) -> (r: &str)
        ensures
            r@ == self@.0,
    {
        self.name.as_str()
    }

    /// Consume self and get the name
    pub fn into_string(self) -> (r: String)
        ensures
            r@ == self@.0,
    {
        self.name
    }
}

/// The data type of a local name
pub open spec fn spec_name_type(is_short: bool) -> u8 {
    if is_short {
        spec_assigned_type_val(AssignedTypes::ShortenedLocalName)
    } else {
        spec_assigned_type_val(AssignedTypes::CompleteLocalName)
    }
}

impl IntoRaw for LocalName {
    open spec fn spec_fits_raw(&self) -> bool {
        (2 + encode_utf8(self@.0).len()) % 256 != 0
    }

    /// The raw form: the length, the data type, and the UTF-8 bytes of the name
    open spec fn spec_into_raw(&self) -> Seq<u8> {
        let data = encode_utf8(self@.0);
        seq![((data.len() + 2) % 256 - 1) as u8, spec_name_type(self@.1)] + data
    }

    fn into_raw(&self) -> (r: Vec<u8>) {
        let data_type = if self.is_short { AssignedTypes::ShortenedLocalName } else { AssignedTypes::CompleteLocalName };
        let val = new_raw_type(data_type.val());
        let mut val = concat(val, vstd::slice::slice_to_vec(self.name.as_str().as_bytes()));
        set_len(&mut val);
        assert(val@ =~= self.spec_into_raw());
        val
    }
}

impl TryFromRaw for LocalName {
    open spec fn spec_from_raw(raw: Seq<u8>, r: Result<LocalName, Error>) -> bool {
        &&& (raw.len() == 0 || (raw[0] != spec_name_type(true) && raw[0] != spec_name_type(false))
            ==> r == Err::<LocalName, Error>(spec_type_error(raw)))
        &&& (raw.len() > 0 && (raw[0] == spec_name_type(true) || raw[0] == spec_name_type(false)) ==> {
            &&& r is Ok <==> valid_utf8(raw.skip(1))
            &&& r matches Ok(n) ==> n@ == (decode_utf8(raw.skip(1)), raw[0] == spec_name_type(true))
            &&& r matches Err(e) ==> e == Error::UTF8Error
        })
    }

    /// The raw data holds the data type then the name in UTF-8
    fn try_from_raw(raw: &[u8]) -> (r: Result<LocalName, Error>) {
        if raw.len() == 0 {
            return Err(Error::RawTooSmall);
        }
        let short_type = AssignedTypes::ShortenedLocalName.val();
        if raw[0] != short_type && raw[0] != AssignedTypes::CompleteLocalName.val() {
            return Err(Error::IncorrectDataType);
        }
        let rest = vstd::slice::slice_subrange(raw, 1, raw.len());
        assert(rest@ =~= raw@.skip(1));
        match crate::att::str_from_utf8(rest) {
            Some(name) => {
                proof { vstd::utf8::encode_utf8_decode_utf8(name@); }
                Ok(LocalName { name: name.to_owned(), is_short: raw[0] == short_type })
            },
            None => Err(Error::UTF8Error),
        }
    }
}

/// A local name is read back from its raw form: without the length byte, the raw form starts
/// with the type of the name, and the bytes after it are the UTF-8 bytes of the name.
pub proof fn lemma_local_name_roundtrip(name: LocalName)
    ensures
        name.spec_into_raw().len() >= 2,
        name.spec_into_raw().skip(1)[0] == spec_name_type(name@.1),
        name.spec_into_raw().skip(1).skip(1) == encode_utf8(name@.0),
        valid_utf8(name.spec_into_raw().skip(1).skip(1)),
        decode_utf8(name.spec_into_raw().skip(1).skip(1)) == name@.0,
        forall|r: Result<LocalName, Error>| #[trigger] LocalName::spec_from_raw(name.spec_into_raw().skip(1), r)
            ==> (r matches Ok(n) && n@ == name@),
{
    let raw = name.spec_into_raw();
    assert(raw.skip(1).skip(1) =~= encode_utf8(name@.0));
    vstd::utf8::encode_utf8_decode_utf8(name@.0);
    vstd::utf8::encode_utf8_valid_utf8(name@.0);
}

} // verus!
