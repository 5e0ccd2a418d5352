//! The Attribute Protocol
//!
//! The Attribute Protocol is used to expose the attributes of a device through Bluetooth. It is
//! the base for the Generic Attribute Profile. This is an implementation of the Attribute
//! Protocol as defined in the Bluetooth Specification (version 5.0), Vol. 3, Part F.
use vstd::prelude::*;
use vstd::utf8::{valid_utf8, decode_utf8, encode_utf8};
use vstd::string::StringSliceAdditionalSpecFns;
use crate::uuid::{UUID, spec_short_u16, spec_uuid_of_short};
use le::{le_value, le_bytes, le_encode, le_decode, pow256, signed_value, twos_complement};

pub mod le;
pub mod pdu;
pub mod client;
pub mod server;
pub mod laws;

verus! {

/// The channel identifier value of the Attribute Protocol on an LE link
pub const ATT_CID: u16 = 0x0004;

/// The channel identifier of the Attribute Protocol on an LE link
pub fn l2cap_channel_id() -> (r: crate::l2cap::ChannelIdentifier)
    ensures
        r.cid == ATT_CID,
{
    crate::l2cap::ChannelIdentifier { cid: ATT_CID }
}

/// The minimum number of data bytes in an attribute protocol based packet for bluetooth le
pub const MIN_ATT_MTU_LE: u16 = 23;

/// The minimum number of data bytes in an attribute protocol based packet for bluetooth BR/EDR
pub const MIN_ATT_MTU_BR_EDR: u16 = 48;

/// Advanced Encryption Standard (AES) key sizes
#[derive(Clone, Copy, Debug, PartialEq, Eq, Structural, PartialOrd, Ord)]
pub enum EncryptionKeySize {
    Bits128,
    Bits192,
    Bits256,
}

impl EncryptionKeySize {
    /// Used to force an ordering such that Bits128 < Bits192 < Bits256
    pub fn forced_order_val(&self) -> (r: usize)
        ensures
            r == spec_key_size_order(*self),
    {
        match self {
            EncryptionKeySize::Bits128 => 0,
            EncryptionKeySize::Bits192 => 1,
            EncryptionKeySize::Bits256 => 2,
        }
    }
}

/// The position of a key size in the order Bits128 < Bits192 < Bits256
pub open spec fn spec_key_size_order(k: EncryptionKeySize) -> usize {
    match k {
        EncryptionKeySize::Bits128 => 0,
        EncryptionKeySize::Bits192 => 1,
        EncryptionKeySize::Bits256 => 2,
    }
}

/// Attribute permission restriction
///
/// Some attributes permissions are restrictions regarding reading and writing permissions. For
/// those permissions this enum is used to specify whether the restriction is for reading or
/// writing.
#[derive(Clone, Copy, Debug, PartialEq, Eq, Structural, PartialOrd, Ord)]
pub enum AttributeRestriction {
    Read,
    Write,
}

#[derive(Clone, Copy, Debug, PartialEq, Eq, Structural, PartialOrd, Ord)]
pub enum AttributePermissions {
    /// Readable attributes
    Read,
    /// Writeable attributes
    Write,
    /// Encryption is required to access the specified attribute permission(s), and a minimum
    /// key size may also be required.
    Encryption(AttributeRestriction, EncryptionKeySize),
    /// Authentication is required to access the specified attribute permission(s)
    Authentication(AttributeRestriction),
    /// Authorization is required to access the specified attribute permission(s)
    Authorization(AttributeRestriction),
}

/// The position of a restriction in the order Read < Write
pub open spec fn spec_restriction_rank(r: AttributeRestriction) -> u8 {
    match r {
        AttributeRestriction::Read => 0,
        AttributeRestriction::Write => 1,
    }
}

/// The position of a permission in the order that `Ord` gives the permissions: variants in
/// their order of declaration, the fields of a variant compared in turn.
pub open spec fn spec_permission_rank(p: AttributePermissions) -> u8 {
    match p {
        AttributePermissions::Read => 0,
        AttributePermissions::Write => 1,
        AttributePermissions::Encryption(r, k) =>
            (2 + 3 * spec_restriction_rank(r) + spec_key_size_order(k)) as u8,
        AttributePermissions::Authentication(r) => (8 + spec_restriction_rank(r)) as u8,
        AttributePermissions::Authorization(r) => (10 + spec_restriction_rank(r)) as u8,
    }
}

/// Permissions of equal rank are equal
pub proof fn lemma_permission_rank_injective(a: AttributePermissions, b: AttributePermissions)
    requires
        spec_permission_rank(a) == spec_permission_rank(b),
    ensures
        a == b,
{
}

/// The rank of a permission in the order of `Ord`
pub fn permission_rank(p: AttributePermissions) -> (r: u8)
    ensures
        r == spec_permission_rank(p),
{
    let restriction = |r: AttributeRestriction| -> (x: u8)
        ensures x == spec_restriction_rank(r)
    {
        match r {
            AttributeRestriction::Read => 0u8,
            AttributeRestriction::Write => 1u8,
        }
    };
    match p {
        AttributePermissions::Read => 0,
        AttributePermissions::Write => 1,
        AttributePermissions::Encryption(r, k) => 2 + 3 * restriction(r) + (k.forced_order_val() as u8),
        AttributePermissions::Authentication(r) => 8 + restriction(r),
        AttributePermissions::Authorization(r) => 10 + restriction(r),
    }
}

/// The permissions of `s` are ordered by rank with no permission twice
pub open spec fn spec_sorted_set(s: Seq<AttributePermissions>) -> bool {
    forall|i: int, j: int| 0 <= i < j < s.len()
        ==> spec_permission_rank(#[trigger] s[i]) < spec_permission_rank(#[trigger] s[j])
}

/// Two sorted sets of permissions that hold the same permissions are equal
pub proof fn lemma_sorted_set_unique(s: Seq<AttributePermissions>, t: Seq<AttributePermissions>)
    requires
        spec_sorted_set(s),
        spec_sorted_set(t),
        forall|p: AttributePermissions| s.contains(p) <==> t.contains(p),
    ensures
        s == t,
    decreases s.len(),
{
    if s.len() == 0 {
        if t.len() > 0 {
            assert(t.contains(t[0]));
        }
        assert(s =~= t);
    } else {
        assert(s.contains(s[0]));
        assert(t.len() > 0);
        assert(t.contains(t[0]));
        let i = choose|i: int| 0 <= i < t.len() && t[i] == s[0];
        let j = choose|j: int| 0 <= j < s.len() && s[j] == t[0];
        assert(spec_permission_rank(t[0]) <= spec_permission_rank(s[0])) by {
            if i > 0 { assert(spec_permission_rank(t[0]) < spec_permission_rank(t[i])); }
        }
        assert(spec_permission_rank(s[0]) <= spec_permission_rank(t[0])) by {
            if j > 0 { assert(spec_permission_rank(s[0]) < spec_permission_rank(s[j])); }
        }
        lemma_permission_rank_injective(s[0], t[0]);
        let s1 = s.drop_first();
        let t1 = t.drop_first();
        assert forall|p: AttributePermissions| s1.contains(p) <==> t1.contains(p) by {
            if s1.contains(p) {
                let k = choose|k: int| 0 <= k < s1.len() && s1[k] == p;
                assert(s[k + 1] == p);
                assert(spec_permission_rank(s[0]) < spec_permission_rank(s[k + 1]));
                assert(t.contains(p));
                let m = choose|m: int| 0 <= m < t.len() && t[m] == p;
                assert(m != 0);
                assert(t1[m - 1] == p);
            }
            if t1.contains(p) {
                let k = choose|k: int| 0 <= k < t1.len() && t1[k] == p;
                assert(t[k + 1] == p);
                assert(spec_permission_rank(t[0]) < spec_permission_rank(t[k + 1]));
                assert(s.contains(p));
                let m = choose|m: int| 0 <= m < s.len() && s[m] == p;
                assert(m != 0);
                assert(s1[m - 1] == p);
            }
        }
        assert(spec_sorted_set(s1)) by {
            assert forall|a: int, b: int| 0 <= a < b < s1.len()
                implies spec_permission_rank(#[trigger] s1[a]) < spec_permission_rank(#[trigger] s1[b]) by {
                assert(s1[a] == s[a + 1] && s1[b] == s[b + 1]);
            }
        }
        assert(spec_sorted_set(t1)) by {
            assert forall|a: int, b: int| 0 <= a < b < t1.len()
                implies spec_permission_rank(#[trigger] t1[a]) < spec_permission_rank(#[trigger] t1[b]) by {
                assert(t1[a] == t[a + 1] && t1[b] == t[b + 1]);
            }
        }
        lemma_sorted_set_unique(s1, t1);
        assert(s =~= seq![s[0]] + s1);
        assert(t =~= seq![t[0]] + t1);
    }
}

/// Sort the permissions and remove the duplicates
pub fn sort_dedup_permissions(permissions: Vec<AttributePermissions>) -> (r: Vec<AttributePermissions>)
    ensures
        spec_sorted_set(r@),
        forall|p: AttributePermissions| r@.contains(p) <==> permissions@.contains(p),
{
    let mut r: Vec<AttributePermissions> = Vec::new();
    let mut i: usize = 0;
    while i < permissions.len()
        invariant
            i <= permissions.len(),
            spec_sorted_set(r@),
            forall|p: AttributePermissions| r@.contains(p) <==> permissions@.subrange(0, i as int).contains(p),
        decreases permissions.len() - i,
    {
        let p = permissions[i];
        let rank = permission_rank(p);
        // find the insertion position
        let mut j: usize = 0;
        while j < r.len() && permission_rank(r[j]) < rank
            invariant
                j <= r.len(),
                forall|k: int| 0 <= k < j ==> spec_permission_rank(#[trigger] r@[k]) < rank,
            decreases r.len() - j,
        {
            j = j + 1;
        }
        let ghost old_r = r@;
        if j < r.len() && permission_rank(r[j]) == rank {
            proof {
                lemma_permission_rank_injective(r@[j as int], p);
                assert(r@[j as int] == p);
                assert(r@.contains(p));
                assert forall|q: AttributePermissions| r@.contains(q) <==> (old_r.contains(q) || q == p) by {
                }
            }
        } else {
            proof {
                assert forall|k: int| j <= k < old_r.len() implies spec_permission_rank(#[trigger] old_r[k]) > rank by {
                    if k > j {
                        assert(spec_permission_rank(old_r[j as int]) < spec_permission_rank(old_r[k]));
                    }
                }
            }
            r.insert(j, p);
            assert(r@ =~= old_r.subrange(0, j as int).push(p) + old_r.subrange(j as int, old_r.len() as int));
            assert forall|a: int, b: int| 0 <= a < b < r@.len()
                implies spec_permission_rank(#[trigger] r@[a]) < spec_permission_rank(#[trigger] r@[b]) by {
                if b < j {
                } else if b == j {
                } else if a < j {
                    assert(r@[b] == old_r[b - 1]);
                } else if a == j {
                    assert(r@[b] == old_r[b - 1]);
                } else {
                    assert(r@[a] == old_r[a - 1]);
                    assert(r@[b] == old_r[b - 1]);
                }
            }
            assert forall|q: AttributePermissions| r@.contains(q) <==> (old_r.contains(q) || q == p) by {
                if r@.contains(q) {
                    let k = choose|k: int| 0 <= k < r@.len() && r@[k] == q;
                    if k < j {
                        assert(old_r[k] == q);
                    } else if k > j {
                        assert(old_r[k - 1] == q);
                    }
                }
                if old_r.contains(q) {
                    let k = choose|k: int| 0 <= k < old_r.len() && old_r[k] == q;
                    if k < j {
                        assert(r@[k] == q);
                    } else {
                        assert(r@[k + 1] == q);
                    }
                }
                if q == p {
                    assert(r@[j as int] == q);
                }
            }
        }
        assert(permissions@.subrange(0, i + 1) =~= permissions@.subrange(0, i as int).push(p));
        proof {
            lemma_push_contains(permissions@.subrange(0, i as int), p);
            assert forall|q: AttributePermissions| r@.contains(q) <==> permissions@.subrange(0, i + 1).contains(q) by {
                assert(old_r.contains(q) <==> permissions@.subrange(0, i as int).contains(q));
            }
        }
        i = i + 1;
    }
    assert(permissions@.subrange(0, permissions.len() as int) =~= permissions@);
    r
}

proof fn lemma_push_contains<T>(s: Seq<T>, p: T)
    ensures
        forall|q: T| s.push(p).contains(q) <==> (s.contains(q) || q == p),
{
    assert forall|q: T| s.push(p).contains(q) <==> (s.contains(q) || q == p) by {
        if s.push(p).contains(q) && q != p {
            let k = choose|k: int| 0 <= k < s.push(p).len() && #[trigger] s.push(p)[k] == q;
            assert(s[k] == q);
        }
        if s.contains(q) {
            let k = choose|k: int| 0 <= k < s.len() && #[trigger] s[k] == q;
            assert(s.push(p)[k] == q);
        }
        if q == p {
            assert(s.push(p)[s.len() as int] == q);
        }
    }
}

/// The error of converting between the transfer format and a value
pub struct TransferFormatError {
    pub pdu_err: pdu::Error,
    pub message: String,
}

impl TransferFormatError {
    /// Create a `TransferFormatError` with the given message; the error is `InvalidPDU`
    pub fn from_message(msg: &str) -> (r: TransferFormatError)
        ensures
            r.pdu_err == pdu::Error::InvalidPDU,
            r.message@ == msg@,
    {
        TransferFormatError { pdu_err: pdu::Error::InvalidPDU, message: msg.to_owned() }
    }

    /// Create a `TransferFormatError` with the input `err` and the message 'unspecified'
    pub fn from_pdu_error(err: pdu::Error) -> (r: TransferFormatError)
        ensures
            r.pdu_err == err,
    {
        TransferFormatError { pdu_err: err, message: "unspecified".to_owned() }
    }

    /// Create a `TransferFormatError` for when the processed bytes does not match the expected
    /// number of bytes
    pub fn bad_size(name: &str, expected_len: usize, incorrect_len: usize) -> (r: TransferFormatError)
        ensures
            r.pdu_err == pdu::Error::InvalidPDU,
    {
        TransferFormatError { pdu_err: pdu::Error::InvalidPDU, message: size_message(name, expected_len, incorrect_len) }
    }

    /// Create a `TransferFormatError` for when the data is shorter than its minimum size
    pub fn bad_min_size(name: &str, min_size: usize, data_len: usize) -> (r: TransferFormatError)
        ensures
            r.pdu_err == pdu::Error::InvalidPDU,
    {
        TransferFormatError { pdu_err: pdu::Error::InvalidPDU, message: min_size_message(name, min_size, data_len) }
    }

    /// Create a `TransferFormatError` for data whose length is not a multiple of the size of
    /// the items it holds
    pub fn bad_exact_chunks(name: &str, chunk_size: usize, data_len: usize) -> (r: TransferFormatError)
        ensures
            r.pdu_err == pdu::Error::InvalidPDU,
    {
        TransferFormatError { pdu_err: pdu::Error::InvalidPDU, message: chunks_message(name, chunk_size, data_len) }
    }
}

/// Formats the message of a size error with `format!`.
#[verifier::external_body]
fn size_message(name: &str, expected_len: usize, incorrect_len: usize) -> String {
    format!("Expected a size of {} bytes for {}, data length is {}", expected_len, name, incorrect_len)
}

/// Formats the message of a minimum size error with `format!`.
#[verifier::external_body]
fn min_size_message(name: &str, min_size: usize, data_len: usize) -> String {
    format!("Expected a minimum size of {} bytes for {}, data length is {}", min_size, name, data_len)
}

/// Formats the message of an error about data that does not split evenly, with `format!`.
#[verifier::external_body]
fn chunks_message(name: &str, chunk_size: usize, data_len: usize) -> String {
    format!("Cannot split data for {}, data of length {} is not a multiple of {}", name, data_len, chunk_size)
}

/// Checks the bytes with `core::str::from_utf8`: the result is `Some` exactly when the bytes
/// are valid UTF-8, and then the string's bytes are the input bytes.
#[verifier::external_body]
pub(crate) fn str_from_utf8(raw: &[u8]) -> (r: Option<&str>)
    ensures
        r is Some <==> valid_utf8(raw@),
        r matches Some(s) ==> s.spec_bytes() == raw@,
{
    core::str::from_utf8(raw).ok()
}

/// ATT Protocol Transmission format
///
/// Structures that implement `TransferFormat` can be converted into the transmitted format
/// (between the server and client) or be constructed from the raw transmitted data.
///
/// `parse_spec` gives the value (by its view) that a byte sequence stands for, or `None` where
/// the bytes are not a valid transfer format of the type. `serialize_spec` gives the bytes of
/// a value.
pub trait TransferFormat: View + Sized {
    spec fn parse_spec(raw: Seq<u8>) -> Option<Self::V>;

    spec fn serialize_spec(v: Self::V) -> Seq<u8>;

    /// Make Self from the attribute parameter
    fn from(raw: &[u8]) -> (r: Result<Self, TransferFormatError>)
        ensures
            r is Ok <==> Self::parse_spec(raw@) is Some,
            r matches Ok(v) ==> Self::parse_spec(raw@) == Some(v@),
            r matches Err(e) ==> e.pdu_err == pdu::Error::InvalidPDU;

    /// Convert Self into the attribute parameter
    fn into(&self) -> (r: Vec<u8>)
        ensures
            r@ == Self::serialize_spec(self@);
}

/// The size of Formatted Transfer
///
/// This is required for vectors or slices of transferred data.
pub trait TransferFormatSize {
    spec fn size_spec() -> nat;

    /// The size of the data in its transferred format
    fn size() -> (r: usize)
        ensures
            r == Self::size_spec(),
            0 < r <= 0xFFFF;
}

/// The number of bytes of a `usize` or `isize`
pub open spec fn spec_word_bytes() -> nat {
    (usize::BITS / 8) as nat
}

/// The value of `n` little endian bytes as an unsigned integer of `n` bytes
pub open spec fn unsigned_parse(raw: Seq<u8>, n: nat) -> Option<nat> {
    if raw.len() == n { Some(le_value(raw)) } else { None }
}

/// The value of `n` little endian bytes as a signed integer of `n` bytes
pub open spec fn signed_parse(raw: Seq<u8>, n: nat) -> Option<int> {
    if raw.len() == n { Some(signed_value(le_value(raw), n)) } else { None }
}

fn invalid_length(name: &str) -> (r: TransferFormatError)
    ensures
        r.pdu_err == pdu::Error::InvalidPDU,
{
    TransferFormatError::from_message(name)
}

proof fn lemma_unsigned_fits(raw: Seq<u8>, n: nat)
    requires
        raw.len() == n,
        n <= 16,
    ensures
        le_value(raw) < pow256(n),
        pow256(1) == 0x100,
        pow256(2) == 0x1_0000,
        pow256(4) == 0x1_0000_0000,
        pow256(8) == 0x1_0000_0000_0000_0000,
        pow256(16) == 0x1_0000_0000_0000_0000_0000_0000_0000_0000,
{
    le::lemma_le_value_bound(raw);
    le::lemma_pow256_values();
}

impl TransferFormat for u8 {
    open spec fn parse_spec(raw: Seq<u8>) -> Option<u8> {
        match unsigned_parse(raw, 1) { Some(v) => Some(v as u8), None => None }
    }

    open spec fn serialize_spec(v: u8) -> Seq<u8> {
        le_bytes(v as nat, 1)
    }

    fn from(raw: &[u8]) -> (r: Result<u8, TransferFormatError>) {
        if raw.len() == 1 {
            proof { lemma_unsigned_fits(raw@, 1); }
            Ok(le_decode(raw) as u8)
        } else {
            Err(invalid_length("Invalid length for u8"))
        }
    }

    fn into(&self) -> (r: Vec<u8>) {
        le_encode(*self as u128, 1)
    }
}

impl TransferFormat for u16 {
    open spec fn parse_spec(raw: Seq<u8>) -> Option<u16> {
        match unsigned_parse(raw, 2) { Some(v) => Some(v as u16), None => None }
    }

    open spec fn serialize_spec(v: u16) -> Seq<u8> {
        le_bytes(v as nat, 2)
    }

    fn from(raw: &[u8]) -> (r: Result<u16, TransferFormatError>) {
        if raw.len() == 2 {
            proof { lemma_unsigned_fits(raw@, 2); }
            Ok(le_decode(raw) as u16)
        } else {
            Err(invalid_length("Invalid length for u16"))
        }
    }

    fn into(&self) -> (r: Vec<u8>) {
        le_encode(*self as u128, 2)
    }
}

impl TransferFormat for u32 {
    open spec fn parse_spec(raw: Seq<u8>) -> Option<u32> {
        match unsigned_parse(raw, 4) { Some(v) => Some(v as u32), None => None }
    }

    open spec fn serialize_spec(v: u32) -> Seq<u8> {
        le_bytes(v as nat, 4)
    }

    fn from(raw: &[u8]) -> (r: Result<u32, TransferFormatError>) {
        if raw.len() == 4 {
            proof { lemma_unsigned_fits(raw@, 4); }
            Ok(le_decode(raw) as u32)
        } else {
            Err(invalid_length("Invalid length for u32"))
        }
    }

    fn into(&self) -> (r: Vec<u8>) {
        le_encode(*self as u128, 4)
    }
}

impl TransferFormat for u64 {
    open spec fn parse_spec(raw: Seq<u8>) -> Option<u64> {
        match unsigned_parse(raw, 8) { Some(v) => Some(v as u64), None => None }
    }

    open spec fn serialize_spec(v: u64) -> Seq<u8> {
        le_bytes(v as nat, 8)
    }

    fn from(raw: &[u8]) -> (r: Result<u64, TransferFormatError>) {
        if raw.len() == 8 {
            proof { lemma_unsigned_fits(raw@, 8); }
            Ok(le_decode(raw) as u64)
        } else {
            Err(invalid_length("Invalid length for u64"))
        }
    }

    fn into(&self) -> (r: Vec<u8>) {
        le_encode(*self as u128, 8)
    }
}

impl TransferFormat for u128 {
    open spec fn parse_spec(raw: Seq<u8>) -> Option<u128> {
        match unsigned_parse(raw, 16) { Some(v) => Some(v as u128), None => None }
    }

    open spec fn serialize_spec(v: u128) -> Seq<u8> {
        le_bytes(v as nat, 16)
    }

    fn from(raw: &[u8]) -> (r: Result<u128, TransferFormatError>) {
        if raw.len() == 16 {
            Ok(le_decode(raw))
        } else {
            Err(invalid_length("Invalid length for u128"))
        }
    }

    fn into(&self) -> (r: Vec<u8>) {
        le_encode(*self, 16)
    }
}

impl TransferFormat for usize {
    open spec fn parse_spec(raw: Seq<u8>) -> Option<usize> {
        match unsigned_parse(raw, spec_word_bytes()) { Some(v) => Some(v as usize), None => None }
    }

    open spec fn serialize_spec(v: usize) -> Seq<u8> {
        le_bytes(v as nat, spec_word_bytes())
    }

    fn from(raw: &[u8]) -> (r: Result<usize, TransferFormatError>) {
        let n = word_bytes();
        if raw.len() == n {
            Ok(le_decode(raw) as usize)
        } else {
            Err(invalid_length("Invalid length for usize"))
        }
    }

    fn into(&self) -> (r: Vec<u8>) {
        le_encode(*self as u128, word_bytes())
    }
}

fn word_bytes() -> (r: usize)
    ensures
        r == spec_word_bytes(),
        r == 4 || r == 8,
{
    (usize::BITS / 8) as usize
}

} // verus!

verus! {

impl TransferFormat for i8 {
    open spec fn parse_spec(raw: Seq<u8>) -> Option<i8> {
        match signed_parse(raw, 1) { Some(v) => Some(v as i8), None => None }
    }

    open spec fn serialize_spec(v: i8) -> Seq<u8> {
        le_bytes(twos_complement(v as int, 1), 1)
    }

    fn from(raw: &[u8]) -> (r: Result<i8, TransferFormatError>) {
        if raw.len() == 1 {
            proof { lemma_unsigned_fits(raw@, 1); }
            let u = le_decode(raw);
            if u >= 0x80 { Ok(((u - 0x80) as i8) + i8::MIN) } else { Ok(u as i8) }
        } else {
            Err(invalid_length("Invalid length for i8"))
        }
    }

    fn into(&self) -> (r: Vec<u8>) {
        proof { le::lemma_pow256_values(); }
        let bits: u128 = if *self < 0 { ((*self - i8::MIN) as u128) + 0x80 } else { *self as u128 };
        le_encode(bits, 1)
    }
}

impl TransferFormat for i16 {
    open spec fn parse_spec(raw: Seq<u8>) -> Option<i16> {
        match signed_parse(raw, 2) { Some(v) => Some(v as i16), None => None }
    }

    open spec fn serialize_spec(v: i16) -> Seq<u8> {
        le_bytes(twos_complement(v as int, 2), 2)
    }

    fn from(raw: &[u8]) -> (r: Result<i16, TransferFormatError>) {
        if raw.len() == 2 {
            proof { lemma_unsigned_fits(raw@, 2); }
            let u = le_decode(raw);
            if u >= 0x8000 { Ok(((u - 0x8000) as i16) + i16::MIN) } else { Ok(u as i16) }
        } else {
            Err(invalid_length("Invalid length for i16"))
        }
    }

    fn into(&self) -> (r: Vec<u8>) {
        proof { le::lemma_pow256_values(); }
        let bits: u128 = if *self < 0 { ((*self - i16::MIN) as u128) + 0x8000 } else { *self as u128 };
        le_encode(bits, 2)
    }
}

impl TransferFormat for i32 {
    open spec fn parse_spec(raw: Seq<u8>) -> Option<i32> {
        match signed_parse(raw, 4) { Some(v) => Some(v as i32), None => None }
    }

    open spec fn serialize_spec(v: i32) -> Seq<u8> {
        le_bytes(twos_complement(v as int, 4), 4)
    }

    fn from(raw: &[u8]) -> (r: Result<i32, TransferFormatError>) {
        if raw.len() == 4 {
            proof { lemma_unsigned_fits(raw@, 4); }
            let u = le_decode(raw);
            if u >= 0x8000_0000 { Ok(((u - 0x8000_0000) as i32) + i32::MIN) } else { Ok(u as i32) }
        } else {
            Err(invalid_length("Invalid length for i32"))
        }
    }

    fn into(&self) -> (r: Vec<u8>) {
        proof { le::lemma_pow256_values(); }
        let bits: u128 = if *self < 0 { ((*self - i32::MIN) as u128) + 0x8000_0000 } else { *self as u128 };
        le_encode(bits, 4)
    }
}

impl TransferFormat for i64 {
    open spec fn parse_spec(raw: Seq<u8>) -> Option<i64> {
        match signed_parse(raw, 8) { Some(v) => Some(v as i64), None => None }
    }

    open spec fn serialize_spec(v: i64) -> Seq<u8> {
        le_bytes(twos_complement(v as int, 8), 8)
    }

    fn from(raw: &[u8]) -> (r: Result<i64, TransferFormatError>) {
        if raw.len() == 8 {
            proof { lemma_unsigned_fits(raw@, 8); }
            let u = le_decode(raw);
            if u >= 0x8000_0000_0000_0000 { Ok(((u - 0x8000_0000_0000_0000) as i64) + i64::MIN) } else { Ok(u as i64) }
        } else {
            Err(invalid_length("Invalid length for i64"))
        }
    }

    fn into(&self) -> (r: Vec<u8>) {
        proof { le::lemma_pow256_values(); }
        let bits: u128 = if *self < 0 { ((*self - i64::MIN) as u128) + 0x8000_0000_0000_0000 } else { *self as u128 };
        le_encode(bits, 8)
    }
}

impl TransferFormat for i128 {
    open spec fn parse_spec(raw: Seq<u8>) -> Option<i128> {
        match signed_parse(raw, 16) { Some(v) => Some(v as i128), None => None }
    }

    open spec fn serialize_spec(v: i128) -> Seq<u8> {
        le_bytes(twos_complement(v as int, 16), 16)
    }

    fn from(raw: &[u8]) -> (r: Result<i128, TransferFormatError>) {
        if raw.len() == 16 {
            proof { lemma_unsigned_fits(raw@, 16); }
            let u = le_decode(raw);
            if u >= 0x8000_0000_0000_0000_0000_0000_0000_0000 {
                Ok(((u - 0x8000_0000_0000_0000_0000_0000_0000_0000) as i128) + i128::MIN)
            } else {
                Ok(u as i128)
            }
        } else {
            Err(invalid_length("Invalid length for i128"))
        }
    }

    fn into(&self) -> (r: Vec<u8>) {
        proof { le::lemma_pow256_values(); }
        let bits: u128 = if *self < 0 {
            ((*self - i128::MIN) as u128) + 0x8000_0000_0000_0000_0000_0000_0000_0000
        } else {
            *self as u128
        };
        le_encode(bits, 16)
    }
}

impl TransferFormat for isize {
    open spec fn parse_spec(raw: Seq<u8>) -> Option<isize> {
        match signed_parse(raw, spec_word_bytes()) { Some(v) => Some(v as isize), None => None }
    }

    open spec fn serialize_spec(v: isize) -> Seq<u8> {
        le_bytes(twos_complement(v as int, spec_word_bytes()), spec_word_bytes())
    }

    fn from(raw: &[u8]) -> (r: Result<isize, TransferFormatError>) {
        let n = word_bytes();
        if raw.len() == n {
            proof { lemma_unsigned_fits(raw@, n as nat); }
            let u = le_decode(raw);
            if n == 8 {
                if u >= 0x8000_0000_0000_0000 { Ok(((u - 0x8000_0000_0000_0000) as isize) + isize::MIN) } else { Ok(u as isize) }
            } else {
                if u >= 0x8000_0000 { Ok(((u - 0x8000_0000) as isize) + isize::MIN) } else { Ok(u as isize) }
            }
        } else {
            Err(invalid_length("Invalid length for isize"))
        }
    }

    fn into(&self) -> (r: Vec<u8>) {
        proof { le::lemma_pow256_values(); }
        let n = word_bytes();
        let half: u128 = if n == 8 { 0x8000_0000_0000_0000 } else { 0x8000_0000 };
        let bits: u128 = if *self < 0 { ((*self - isize::MIN) as u128) + half } else { *self as u128 };
        le_encode(bits, n)
    }
}

impl TransferFormat for () {
    open spec fn parse_spec(raw: Seq<u8>) -> Option<()> {
        if raw.len() == 0 { Some(()) } else { None }
    }

    open spec fn serialize_spec(v: ()) -> Seq<u8> {
        Seq::empty()
    }

    fn from(raw: &[u8]) -> (r: Result<(), TransferFormatError>) {
        if raw.len() == 0 {
            Ok(())
        } else {
            Err(invalid_length("length must be zero for type '()'"))
        }
    }

    fn into(&self) -> (r: Vec<u8>) {
        Vec::new()
    }
}

impl TransferFormat for String {
    open spec fn parse_spec(raw: Seq<u8>) -> Option<Seq<char>> {
        if valid_utf8(raw) { Some(decode_utf8(raw)) } else { None }
    }

    open spec fn serialize_spec(v: Seq<char>) -> Seq<u8> {
        encode_utf8(v)
    }

    fn from(raw: &[u8]) -> (r: Result<String, TransferFormatError>) {
        match str_from_utf8(raw) {
            Some(s) => {
                proof { vstd::utf8::encode_utf8_decode_utf8(s@); }
                Ok(s.to_owned())
            },
            None => Err(TransferFormatError::from_message("invalid utf-8")),
        }
    }

    fn into(&self) -> (r: Vec<u8>) {
        vstd::slice::slice_to_vec(self.as_str().as_bytes())
    }
}

impl TransferFormat for UUID {
    open spec fn parse_spec(raw: Seq<u8>) -> Option<u128> {
        if raw.len() == 2 {
            Some(spec_uuid_of_short(le_value(raw) as int) as u128)
        } else if raw.len() == 16 {
            Some(le_value(raw) as u128)
        } else {
            None
        }
    }

    open spec fn serialize_spec(v: u128) -> Seq<u8> {
        match spec_short_u16(v) {
            Some(short) => le_bytes(short as nat, 2),
            None => le_bytes(v as nat, 16),
        }
    }

    fn from(raw: &[u8]) -> (r: Result<UUID, TransferFormatError>) {
        if raw.len() == 2 {
            proof { lemma_unsigned_fits(raw@, 2); }
            Ok(UUID::from_u16(le_decode(raw) as u16))
        } else if raw.len() == 16 {
            Ok(UUID::from_u128(le_decode(raw)))
        } else {
            Err(TransferFormatError::from_message("Failed to create UUID, raw data is not 16 or 128 bits"))
        }
    }

    fn into(&self) -> (r: Vec<u8>) {
        match self.try_into_u16() {
            Some(short) => le_encode(short as u128, 2),
            None => le_encode(self.into_u128(), 16),
        }
    }
}

impl TransferFormatSize for u8 {
    open spec fn size_spec() -> nat { 1 }
    fn size() -> (r: usize) { 1 }
}

impl TransferFormatSize for u16 {
    open spec fn size_spec() -> nat { 2 }
    fn size() -> (r: usize) { 2 }
}

impl TransferFormatSize for u32 {
    open spec fn size_spec() -> nat { 4 }
    fn size() -> (r: usize) { 4 }
}

impl TransferFormatSize for u64 {
    open spec fn size_spec() -> nat { 8 }
    fn size() -> (r: usize) { 8 }
}

impl TransferFormatSize for u128 {
    open spec fn size_spec() -> nat { 16 }
    fn size() -> (r: usize) { 16 }
}

impl TransferFormatSize for usize {
    open spec fn size_spec() -> nat { spec_word_bytes() }
    fn size() -> (r: usize) { word_bytes() }
}

impl TransferFormatSize for i8 {
    open spec fn size_spec() -> nat { 1 }
    fn size() -> (r: usize) { 1 }
}

impl TransferFormatSize for i16 {
    open spec fn size_spec() -> nat { 2 }
    fn size() -> (r: usize) { 2 }
}

impl TransferFormatSize for i32 {
    open spec fn size_spec() -> nat { 4 }
    fn size() -> (r: usize) { 4 }
}

impl TransferFormatSize for i64 {
    open spec fn size_spec() -> nat { 8 }
    fn size() -> (r: usize) { 8 }
}

impl TransferFormatSize for i128 {
    open spec fn size_spec() -> nat { 16 }
    fn size() -> (r: usize) { 16 }
}

impl TransferFormatSize for isize {
    open spec fn size_spec() -> nat { spec_word_bytes() }
    fn size() -> (r: usize) { word_bytes() }
}

} // verus!

verus! {

/// The items that `raw` stands for, read in chunks of `size` bytes
pub open spec fn parse_chunks<T: TransferFormat + View<V = T>>(raw: Seq<u8>, size: nat) -> Option<Seq<T>>
    decreases raw.len(),
{
    if size == 0 {
        None
    } else if raw.len() == 0 {
        Some(Seq::empty())
    } else if raw.len() < size {
        None
    } else {
        match (T::parse_spec(raw.take(size as int)), parse_chunks::<T>(raw.skip(size as int), size)) {
            (Some(first), Some(rest)) => Some(seq![first] + rest),
            _ => None,
        }
    }
}

/// The bytes of the items of `s`, one after the other
pub open spec fn serialize_all<T: TransferFormat + View<V = T>>(s: Seq<T>) -> Seq<u8>
    decreases s.len(),
{
    if s.len() == 0 {
        Seq::empty()
    } else {
        serialize_all(s.drop_last()) + T::serialize_spec(s.last())
    }
}

/// The items read so far (`done`) followed by those that the rest of the bytes stand for
pub open spec fn prepend_parsed<T>(done: Seq<T>, rest: Option<Seq<T>>) -> Option<Seq<T>> {
    match rest {
        Some(r) => Some(done + r),
        None => None,
    }
}

/// Types whose view is the value itself
pub trait IdentityView: View<V = Self> + Sized {
    proof fn lemma_view_is_identity(&self)
        ensures
            self@ == *self;
}

impl IdentityView for u8 { proof fn lemma_view_is_identity(&self) {} }
impl IdentityView for u16 { proof fn lemma_view_is_identity(&self) {} }
impl IdentityView for u32 { proof fn lemma_view_is_identity(&self) {} }
impl IdentityView for u64 { proof fn lemma_view_is_identity(&self) {} }
impl IdentityView for u128 { proof fn lemma_view_is_identity(&self) {} }
impl IdentityView for usize { proof fn lemma_view_is_identity(&self) {} }
impl IdentityView for i8 { proof fn lemma_view_is_identity(&self) {} }
impl IdentityView for i16 { proof fn lemma_view_is_identity(&self) {} }
impl IdentityView for i32 { proof fn lemma_view_is_identity(&self) {} }
impl IdentityView for i64 { proof fn lemma_view_is_identity(&self) {} }
impl IdentityView for i128 { proof fn lemma_view_is_identity(&self) {} }
impl IdentityView for isize { proof fn lemma_view_is_identity(&self) {} }

/// Data whose length is not a multiple of the chunk size stands for no items
pub proof fn lemma_parse_chunks_len<T: TransferFormat + View<V = T>>(raw: Seq<u8>, size: nat)
    requires
        parse_chunks::<T>(raw, size) is Some,
    ensures
        size > 0,
        raw.len() % size == 0,
        parse_chunks::<T>(raw, size).unwrap().len() * size == raw.len(),
    decreases raw.len(),
{
    if raw.len() > 0 {
        lemma_parse_chunks_len::<T>(raw.skip(size as int), size);
        vstd::arithmetic::div_mod::lemma_mod_add_multiples_vanish((raw.len() - size) as int, size as int);
        assert(parse_chunks::<T>(raw, size).unwrap().len() * size
            == (parse_chunks::<T>(raw.skip(size as int), size).unwrap().len() + 1) * size);
        vstd::arithmetic::mul::lemma_mul_is_distributive_add_other_way(size as int,
            parse_chunks::<T>(raw.skip(size as int), size).unwrap().len() as int, 1);
    } else {
        vstd::arithmetic::div_mod::lemma_mod_self_0(size as int);
        vstd::arithmetic::div_mod::lemma_small_mod(0, size);
    }
}

impl<T: TransferFormat + TransferFormatSize + IdentityView> TransferFormat for Vec<T> {
    open spec fn parse_spec(raw: Seq<u8>) -> Option<Seq<T>> {
        parse_chunks::<T>(raw, T::size_spec())
    }

    open spec fn serialize_spec(v: Seq<T>) -> Seq<u8> {
        serialize_all(v)
    }

    fn from(raw: &[u8]) -> (r: Result<Vec<T>, TransferFormatError>) {
        let size = T::size();
        if raw.len() % size != 0 {
            proof {
                if parse_chunks::<T>(raw@, size as nat) is Some {
                    lemma_parse_chunks_len::<T>(raw@, size as nat);
                }
            }
            return Err(TransferFormatError::bad_exact_chunks("{generic}", size, raw.len()));
        }
        let mut v: Vec<T> = Vec::new();
        let mut pos: usize = 0;
        assert(raw@.skip(0) =~= raw@);
        assert(v@ + Seq::<T>::empty() =~= v@);
        while pos < raw.len()
            invariant
                size == T::size_spec(),
                size > 0,
                pos <= raw.len(),
                (raw.len() - pos) % (size as int) == 0,
                parse_chunks::<T>(raw@, size as nat) == prepend_parsed(v@, parse_chunks::<T>(raw@.skip(pos as int), size as nat)),
            decreases raw.len() - pos,
        {
            let ghost rest = raw@.skip(pos as int);
            proof {
                vstd::arithmetic::div_mod::lemma_mod_self_0(size as int);
                assert(raw.len() - pos >= size) by {
                    if raw.len() - pos < size {
                        vstd::arithmetic::div_mod::lemma_small_mod((raw.len() - pos) as nat, size as nat);
                    }
                }
                vstd::arithmetic::div_mod::lemma_mod_sub_multiples_vanish((raw.len() - pos) as int, size as int);
            }
            let chunk = vstd::slice::slice_subrange(raw, pos, pos + size);
            assert(chunk@ =~= rest.take(size as int));
            assert(raw@.skip(pos + size) =~= rest.skip(size as int));
            match T::from(chunk) {
                Ok(item) => {
                    let ghost old_v = v@;
                    proof { item.lemma_view_is_identity(); }
                    v.push(item);
                    proof {
                        match parse_chunks::<T>(rest.skip(size as int), size as nat) {
                            Some(r) => { assert(old_v + (seq![item] + r) =~= v@ + r); },
                            None => {},
                        }
                    }
                    pos = pos + size;
                },
                Err(_) => {
                    return Err(TransferFormatError::from_message("Failed to make boxed slice"));
                },
            }
        }
        assert(raw@.skip(pos as int) =~= Seq::<u8>::empty());
        assert(v@ + Seq::<T>::empty() =~= v@);
        Ok(v)
    }

    fn into(&self) -> (r: Vec<u8>) {
        let mut r: Vec<u8> = Vec::new();
        let mut i: usize = 0;
        assert(self@.take(0) =~= Seq::<T>::empty());
        while i < self.len()
            invariant
                i <= self.len(),
                r@ == serialize_all(self@.take(i as int)),
            decreases self.len() - i,
        {
            let mut bytes = TransferFormat::into(&self[i]);
            proof { self@[i as int].lemma_view_is_identity(); }
            assert(self@.take(i + 1).drop_last() =~= self@.take(i as int));
            r.append(&mut bytes);
            i = i + 1;
        }
        assert(self@.take(self.len() as int) =~= self@);
        r
    }
}

} // verus!

verus! {

use crate::gatt;
use crate::gatt::characteristic::{Declaration, ExtendedProperties, ClientConfiguration, ServerConfiguration};

impl<T: TransferFormat> TransferFormat for Box<T> {
    open spec fn parse_spec(raw: Seq<u8>) -> Option<T::V> {
        T::parse_spec(raw)
    }

    open spec fn serialize_spec(v: T::V) -> Seq<u8> {
        T::serialize_spec(v)
    }

    fn from(raw: &[u8]) -> (r: Result<Box<T>, TransferFormatError>) {
        match T::from(raw) {
            Ok(v) => Ok(Box::new(v)),
            Err(e) => Err(e),
        }
    }

    fn into(&self) -> (r: Vec<u8>) {
        T::into(&**self)
    }
}

/// The type of the value an attribute holds
#[derive(Clone, Copy, PartialEq, Eq, Debug, Structural)]
pub enum ValueKind {
    U8,
    U16,
    U32,
    U64,
    U128,
    Usize,
    I8,
    I16,
    I32,
    I64,
    I128,
    Isize,
    Unit,
    Text,
    Uuid,
    Bytes,
    ServiceInclude,
    Declaration,
    ExtendedProperties,
    ClientConfiguration,
    ServerConfiguration,
    /// The value of the reserved handle 0, which cannot be written
    Reserved,
}

/// The value of an attribute
///
/// An attribute holds a value of one of the types that have a transfer format. Writing an
/// attribute keeps the type of its value: the written bytes must be a transfer format of it.
pub enum AttributeValue {
    U8(u8),
    U16(u16),
    U32(u32),
    U64(u64),
    U128(u128),
    Usize(usize),
    I8(i8),
    I16(i16),
    I32(i32),
    I64(i64),
    I128(i128),
    Isize(isize),
    Unit,
    Text(String),
    Uuid(UUID),
    Bytes(Vec<u8>),
    ServiceInclude(gatt::ServiceInclude),
    Declaration(Declaration),
    ExtendedProperties(Vec<ExtendedProperties>),
    ClientConfiguration(Vec<ClientConfiguration>),
    ServerConfiguration(Vec<ServerConfiguration>),
    Reserved,
}

/// Whether `raw` is a transfer format of a value of kind `k`
pub open spec fn spec_kind_accepts(k: ValueKind, raw: Seq<u8>) -> bool {
    match k {
        ValueKind::U8 => <u8 as TransferFormat>::parse_spec(raw) is Some,
        ValueKind::U16 => <u16 as TransferFormat>::parse_spec(raw) is Some,
        ValueKind::U32 => <u32 as TransferFormat>::parse_spec(raw) is Some,
        ValueKind::U64 => <u64 as TransferFormat>::parse_spec(raw) is Some,
        ValueKind::U128 => <u128 as TransferFormat>::parse_spec(raw) is Some,
        ValueKind::Usize => <usize as TransferFormat>::parse_spec(raw) is Some,
        ValueKind::I8 => <i8 as TransferFormat>::parse_spec(raw) is Some,
        ValueKind::I16 => <i16 as TransferFormat>::parse_spec(raw) is Some,
        ValueKind::I32 => <i32 as TransferFormat>::parse_spec(raw) is Some,
        ValueKind::I64 => <i64 as TransferFormat>::parse_spec(raw) is Some,
        ValueKind::I128 => <i128 as TransferFormat>::parse_spec(raw) is Some,
        ValueKind::Isize => <isize as TransferFormat>::parse_spec(raw) is Some,
        ValueKind::Unit => <() as TransferFormat>::parse_spec(raw) is Some,
        ValueKind::Text => <String as TransferFormat>::parse_spec(raw) is Some,
        ValueKind::Uuid => <UUID as TransferFormat>::parse_spec(raw) is Some,
        ValueKind::Bytes => <Vec<u8> as TransferFormat>::parse_spec(raw) is Some,
        ValueKind::ServiceInclude => <gatt::ServiceInclude as TransferFormat>::parse_spec(raw) is Some,
        ValueKind::Declaration => <Declaration as TransferFormat>::parse_spec(raw) is Some,
        ValueKind::ExtendedProperties => <Vec<ExtendedProperties> as TransferFormat>::parse_spec(raw) is Some,
        ValueKind::ClientConfiguration => <Vec<ClientConfiguration> as TransferFormat>::parse_spec(raw) is Some,
        ValueKind::ServerConfiguration => <Vec<ServerConfiguration> as TransferFormat>::parse_spec(raw) is Some,
        ValueKind::Reserved => false,
    }
}

/// The transfer format of the value of kind `k` that `raw` stands for
pub open spec fn spec_kind_canonical(k: ValueKind, raw: Seq<u8>) -> Seq<u8> {
    match k {
        ValueKind::U8 => <u8 as TransferFormat>::serialize_spec(<u8 as TransferFormat>::parse_spec(raw).unwrap()),
        ValueKind::U16 => <u16 as TransferFormat>::serialize_spec(<u16 as TransferFormat>::parse_spec(raw).unwrap()),
        ValueKind::U32 => <u32 as TransferFormat>::serialize_spec(<u32 as TransferFormat>::parse_spec(raw).unwrap()),
        ValueKind::U64 => <u64 as TransferFormat>::serialize_spec(<u64 as TransferFormat>::parse_spec(raw).unwrap()),
        ValueKind::U128 => <u128 as TransferFormat>::serialize_spec(<u128 as TransferFormat>::parse_spec(raw).unwrap()),
        ValueKind::Usize => <usize as TransferFormat>::serialize_spec(<usize as TransferFormat>::parse_spec(raw).unwrap()),
        ValueKind::I8 => <i8 as TransferFormat>::serialize_spec(<i8 as TransferFormat>::parse_spec(raw).unwrap()),
        ValueKind::I16 => <i16 as TransferFormat>::serialize_spec(<i16 as TransferFormat>::parse_spec(raw).unwrap()),
        ValueKind::I32 => <i32 as TransferFormat>::serialize_spec(<i32 as TransferFormat>::parse_spec(raw).unwrap()),
        ValueKind::I64 => <i64 as TransferFormat>::serialize_spec(<i64 as TransferFormat>::parse_spec(raw).unwrap()),
        ValueKind::I128 => <i128 as TransferFormat>::serialize_spec(<i128 as TransferFormat>::parse_spec(raw).unwrap()),
        ValueKind::Isize => <isize as TransferFormat>::serialize_spec(<isize as TransferFormat>::parse_spec(raw).unwrap()),
        ValueKind::Unit => <() as TransferFormat>::serialize_spec(<() as TransferFormat>::parse_spec(raw).unwrap()),
        ValueKind::Text => <String as TransferFormat>::serialize_spec(<String as TransferFormat>::parse_spec(raw).unwrap()),
        ValueKind::Uuid => <UUID as TransferFormat>::serialize_spec(<UUID as TransferFormat>::parse_spec(raw).unwrap()),
        ValueKind::Bytes => <Vec<u8> as TransferFormat>::serialize_spec(<Vec<u8> as TransferFormat>::parse_spec(raw).unwrap()),
        ValueKind::ServiceInclude => <gatt::ServiceInclude as TransferFormat>::serialize_spec(<gatt::ServiceInclude as TransferFormat>::parse_spec(raw).unwrap()),
        ValueKind::Declaration => <Declaration as TransferFormat>::serialize_spec(<Declaration as TransferFormat>::parse_spec(raw).unwrap()),
        ValueKind::ExtendedProperties => <Vec<ExtendedProperties> as TransferFormat>::serialize_spec(<Vec<ExtendedProperties> as TransferFormat>::parse_spec(raw).unwrap()),
        ValueKind::ClientConfiguration => <Vec<ClientConfiguration> as TransferFormat>::serialize_spec(<Vec<ClientConfiguration> as TransferFormat>::parse_spec(raw).unwrap()),
        ValueKind::ServerConfiguration => <Vec<ServerConfiguration> as TransferFormat>::serialize_spec(<Vec<ServerConfiguration> as TransferFormat>::parse_spec(raw).unwrap()),
        ValueKind::Reserved => Seq::empty(),
    }
}

impl AttributeValue {
    /// The kind of the value
    pub open spec fn spec_kind(&self) -> ValueKind {
        match self {
            AttributeValue::U8(_) => ValueKind::U8,
            AttributeValue::U16(_) => ValueKind::U16,
            AttributeValue::U32(_) => ValueKind::U32,
            AttributeValue::U64(_) => ValueKind::U64,
            AttributeValue::U128(_) => ValueKind::U128,
            AttributeValue::Usize(_) => ValueKind::Usize,
            AttributeValue::I8(_) => ValueKind::I8,
            AttributeValue::I16(_) => ValueKind::I16,
            AttributeValue::I32(_) => ValueKind::I32,
            AttributeValue::I64(_) => ValueKind::I64,
            AttributeValue::I128(_) => ValueKind::I128,
            AttributeValue::Isize(_) => ValueKind::Isize,
            AttributeValue::Unit => ValueKind::Unit,
            AttributeValue::Text(_) => ValueKind::Text,
            AttributeValue::Uuid(_) => ValueKind::Uuid,
            AttributeValue::Bytes(_) => ValueKind::Bytes,
            AttributeValue::ServiceInclude(_) => ValueKind::ServiceInclude,
            AttributeValue::Declaration(_) => ValueKind::Declaration,
            AttributeValue::ExtendedProperties(_) => ValueKind::ExtendedProperties,
            AttributeValue::ClientConfiguration(_) => ValueKind::ClientConfiguration,
            AttributeValue::ServerConfiguration(_) => ValueKind::ServerConfiguration,
            AttributeValue::Reserved => ValueKind::Reserved,
        }
    }

    /// The transfer format of the value
    pub open spec fn spec_bytes(&self) -> Seq<u8> {
        match self {
            AttributeValue::U8(v) => <u8 as TransferFormat>::serialize_spec(v@),
            AttributeValue::U16(v) => <u16 as TransferFormat>::serialize_spec(v@),
            AttributeValue::U32(v) => <u32 as TransferFormat>::serialize_spec(v@),
            AttributeValue::U64(v) => <u64 as TransferFormat>::serialize_spec(v@),
            AttributeValue::U128(v) => <u128 as TransferFormat>::serialize_spec(v@),
            AttributeValue::Usize(v) => <usize as TransferFormat>::serialize_spec(v@),
            AttributeValue::I8(v) => <i8 as TransferFormat>::serialize_spec(v@),
            AttributeValue::I16(v) => <i16 as TransferFormat>::serialize_spec(v@),
            AttributeValue::I32(v) => <i32 as TransferFormat>::serialize_spec(v@),
            AttributeValue::I64(v) => <i64 as TransferFormat>::serialize_spec(v@),
            AttributeValue::I128(v) => <i128 as TransferFormat>::serialize_spec(v@),
            AttributeValue::Isize(v) => <isize as TransferFormat>::serialize_spec(v@),
            AttributeValue::Unit => <() as TransferFormat>::serialize_spec(()),
            AttributeValue::Text(v) => <String as TransferFormat>::serialize_spec(v@),
            AttributeValue::Uuid(v) => <UUID as TransferFormat>::serialize_spec(v@),
            AttributeValue::Bytes(v) => <Vec<u8> as TransferFormat>::serialize_spec(v@),
            AttributeValue::ServiceInclude(v) => <gatt::ServiceInclude as TransferFormat>::serialize_spec(v@),
            AttributeValue::Declaration(v) => <Declaration as TransferFormat>::serialize_spec(v@),
            AttributeValue::ExtendedProperties(v) => <Vec<ExtendedProperties> as TransferFormat>::serialize_spec(v@),
            AttributeValue::ClientConfiguration(v) => <Vec<ClientConfiguration> as TransferFormat>::serialize_spec(v@),
            AttributeValue::ServerConfiguration(v) => <Vec<ServerConfiguration> as TransferFormat>::serialize_spec(v@),
            AttributeValue::Reserved => Seq::empty(),
        }
    }

    /// The kind of the value
    pub fn kind(&self) -> (r: ValueKind)
        ensures
            r == self.spec_kind(),
    {
        match self {
            AttributeValue::U8(_) => ValueKind::U8,
            AttributeValue::U16(_) => ValueKind::U16,
            AttributeValue::U32(_) => ValueKind::U32,
            AttributeValue::U64(_) => ValueKind::U64,
            AttributeValue::U128(_) => ValueKind::U128,
            AttributeValue::Usize(_) => ValueKind::Usize,
            AttributeValue::I8(_) => ValueKind::I8,
            AttributeValue::I16(_) => ValueKind::I16,
            AttributeValue::I32(_) => ValueKind::I32,
            AttributeValue::I64(_) => ValueKind::I64,
            AttributeValue::I128(_) => ValueKind::I128,
            AttributeValue::Isize(_) => ValueKind::Isize,
            AttributeValue::Unit => ValueKind::Unit,
            AttributeValue::Text(_) => ValueKind::Text,
            AttributeValue::Uuid(_) => ValueKind::Uuid,
            AttributeValue::Bytes(_) => ValueKind::Bytes,
            AttributeValue::ServiceInclude(_) => ValueKind::ServiceInclude,
            AttributeValue::Declaration(_) => ValueKind::Declaration,
            AttributeValue::ExtendedProperties(_) => ValueKind::ExtendedProperties,
            AttributeValue::ClientConfiguration(_) => ValueKind::ClientConfiguration,
            AttributeValue::ServerConfiguration(_) => ValueKind::ServerConfiguration,
            AttributeValue::Reserved => ValueKind::Reserved,
        }
    }

    /// The transfer format of the value
    pub fn value_bytes(&self) -> (r: Vec<u8>)
        ensures
            r@ == self.spec_bytes(),
    {
        match self {
            AttributeValue::U8(v) => TransferFormat::into(v),
            AttributeValue::U16(v) => TransferFormat::into(v),
            AttributeValue::U32(v) => TransferFormat::into(v),
            AttributeValue::U64(v) => TransferFormat::into(v),
            AttributeValue::U128(v) => TransferFormat::into(v),
            AttributeValue::Usize(v) => TransferFormat::into(v),
            AttributeValue::I8(v) => TransferFormat::into(v),
            AttributeValue::I16(v) => TransferFormat::into(v),
            AttributeValue::I32(v) => TransferFormat::into(v),
            AttributeValue::I64(v) => TransferFormat::into(v),
            AttributeValue::I128(v) => TransferFormat::into(v),
            AttributeValue::Isize(v) => TransferFormat::into(v),
            AttributeValue::Unit => TransferFormat::into(&()),
            AttributeValue::Text(v) => TransferFormat::into(v),
            AttributeValue::Uuid(v) => TransferFormat::into(v),
            AttributeValue::Bytes(v) => TransferFormat::into(v),
            AttributeValue::ServiceInclude(v) => TransferFormat::into(v),
            AttributeValue::Declaration(v) => TransferFormat::into(v),
            AttributeValue::ExtendedProperties(v) => TransferFormat::into(v),
            AttributeValue::ClientConfiguration(v) => TransferFormat::into(v),
            AttributeValue::ServerConfiguration(v) => TransferFormat::into(v),
            AttributeValue::Reserved => Vec::new(),
        }
    }

    /// Set the value from its transfer format
    ///
    /// The new value has the type of the old one; if `raw` is not a transfer format of that
    /// type the value is unchanged and an error is returned.
    pub fn set_from_raw(&mut self, raw: &[u8]) -> (r: Result<(), TransferFormatError>)
        ensures
            final(self).spec_kind() == old(self).spec_kind(),
            r is Ok <==> spec_kind_accepts(old(self).spec_kind(), raw@),
            r is Ok ==> final(self).spec_bytes() == spec_kind_canonical(old(self).spec_kind(), raw@),
            r is Err ==> final(self).spec_bytes() == old(self).spec_bytes(),
            r matches Err(e) ==> e.pdu_err == pdu::Error::InvalidPDU,
    {
        let kind = self.kind();
        match kind {
            ValueKind::U8 => {
                match <u8 as TransferFormat>::from(raw) {
                    Ok(v) => { *self = AttributeValue::U8(v); Ok(()) },
                    Err(e) => Err(e),
                }
            },
            ValueKind::U16 => {
                match <u16 as TransferFormat>::from(raw) {
                    Ok(v) => { *self = AttributeValue::U16(v); Ok(()) },
                    Err(e) => Err(e),
                }
            },
            ValueKind::U32 => {
                match <u32 as TransferFormat>::from(raw) {
                    Ok(v) => { *self = AttributeValue::U32(v); Ok(()) },
                    Err(e) => Err(e),
                }
            },
            ValueKind::U64 => {
                match <u64 as TransferFormat>::from(raw) {
                    Ok(v) => { *self = AttributeValue::U64(v); Ok(()) },
                    Err(e) => Err(e),
                }
            },
            ValueKind::U128 => {
                match <u128 as TransferFormat>::from(raw) {
                    Ok(v) => { *self = AttributeValue::U128(v); Ok(()) },
                    Err(e) => Err(e),
                }
            },
            ValueKind::Usize => {
                match <usize as TransferFormat>::from(raw) {
                    Ok(v) => { *self = AttributeValue::Usize(v); Ok(()) },
                    Err(e) => Err(e),
                }
            },
            ValueKind::I8 => {
                match <i8 as TransferFormat>::from(raw) {
                    Ok(v) => { *self = AttributeValue::I8(v); Ok(()) },
                    Err(e) => Err(e),
                }
            },
            ValueKind::I16 => {
                match <i16 as TransferFormat>::from(raw) {
                    Ok(v) => { *self = AttributeValue::I16(v); Ok(()) },
                    Err(e) => Err(e),
                }
            },
            ValueKind::I32 => {
                match <i32 as TransferFormat>::from(raw) {
                    Ok(v) => { *self = AttributeValue::I32(v); Ok(()) },
                    Err(e) => Err(e),
                }
            },
            ValueKind::I64 => {
                match <i64 as TransferFormat>::from(raw) {
                    Ok(v) => { *self = AttributeValue::I64(v); Ok(()) },
                    Err(e) => Err(e),
                }
            },
            ValueKind::I128 => {
                match <i128 as TransferFormat>::from(raw) {
                    Ok(v) => { *self = AttributeValue::I128(v); Ok(()) },
                    Err(e) => Err(e),
                }
            },
            ValueKind::Isize => {
                match <isize as TransferFormat>::from(raw) {
                    Ok(v) => { *self = AttributeValue::Isize(v); Ok(()) },
                    Err(e) => Err(e),
                }
            },
            ValueKind::Unit => {
                match <() as TransferFormat>::from(raw) {
                    Ok(_) => { *self = AttributeValue::Unit; Ok(()) },
                    Err(e) => Err(e),
                }
            },
            ValueKind::Text => {
                match <String as TransferFormat>::from(raw) {
                    Ok(v) => { *self = AttributeValue::Text(v); Ok(()) },
                    Err(e) => Err(e),
                }
            },
            ValueKind::Uuid => {
                match <UUID as TransferFormat>::from(raw) {
                    Ok(v) => { *self = AttributeValue::Uuid(v); Ok(()) },
                    Err(e) => Err(e),
                }
            },
            ValueKind::Bytes => {
                match <Vec<u8> as TransferFormat>::from(raw) {
                    Ok(v) => { *self = AttributeValue::Bytes(v); Ok(()) },
                    Err(e) => Err(e),
                }
            },
            ValueKind::ServiceInclude => {
                match <gatt::ServiceInclude as TransferFormat>::from(raw) {
                    Ok(v) => { *self = AttributeValue::ServiceInclude(v); Ok(()) },
                    Err(e) => Err(e),
                }
            },
            ValueKind::Declaration => {
                match <Declaration as TransferFormat>::from(raw) {
                    Ok(v) => { *self = AttributeValue::Declaration(v); Ok(()) },
                    Err(e) => Err(e),
                }
            },
            ValueKind::ExtendedProperties => {
                match <Vec<ExtendedProperties> as TransferFormat>::from(raw) {
                    Ok(v) => { *self = AttributeValue::ExtendedProperties(v); Ok(()) },
                    Err(e) => Err(e),
                }
            },
            ValueKind::ClientConfiguration => {
                match <Vec<ClientConfiguration> as TransferFormat>::from(raw) {
                    Ok(v) => { *self = AttributeValue::ClientConfiguration(v); Ok(()) },
                    Err(e) => Err(e),
                }
            },
            ValueKind::ServerConfiguration => {
                match <Vec<ServerConfiguration> as TransferFormat>::from(raw) {
                    Ok(v) => { *self = AttributeValue::ServerConfiguration(v); Ok(()) },
                    Err(e) => Err(e),
                }
            },
            ValueKind::Reserved => Err(TransferFormatError::from_message("ReservedHandle cannot be set from raw data")),
        }
    }
}

/// Types that can be the value of an attribute
pub trait IntoAttributeValue: TransferFormat {
    /// The kind of value an attribute of this type holds
    spec fn spec_value_kind() -> ValueKind;

    fn into_attribute_value(self) -> (r: AttributeValue)
        ensures
            r.spec_bytes() == Self::serialize_spec(self@),
            r.spec_kind() == Self::spec_value_kind();
}

impl IntoAttributeValue for u8 {
    open spec fn spec_value_kind() -> ValueKind { ValueKind::U8 }

    fn into_attribute_value(self) -> (r: AttributeValue) {
        AttributeValue::U8(self)
    }
}

impl IntoAttributeValue for u16 {
    open spec fn spec_value_kind() -> ValueKind { ValueKind::U16 }

    fn into_attribute_value(self) -> (r: AttributeValue) {
        AttributeValue::U16(self)
    }
}

impl IntoAttributeValue for u32 {
    open spec fn spec_value_kind() -> ValueKind { ValueKind::U32 }

    fn into_attribute_value(self) -> (r: AttributeValue) {
        AttributeValue::U32(self)
    }
}

impl IntoAttributeValue for u64 {
    open spec fn spec_value_kind() -> ValueKind { ValueKind::U64 }

    fn into_attribute_value(self) -> (r: AttributeValue) {
        AttributeValue::U64(self)
    }
}

impl IntoAttributeValue for u128 {
    open spec fn spec_value_kind() -> ValueKind { ValueKind::U128 }

    fn into_attribute_value(self) -> (r: AttributeValue) {
        AttributeValue::U128(self)
    }
}

impl IntoAttributeValue for usize {
    open spec fn spec_value_kind() -> ValueKind { ValueKind::Usize }

    fn into_attribute_value(self) -> (r: AttributeValue) {
        AttributeValue::Usize(self)
    }
}

impl IntoAttributeValue for i8 {
    open spec fn spec_value_kind() -> ValueKind { ValueKind::I8 }

    fn into_attribute_value(self) -> (r: AttributeValue) {
        AttributeValue::I8(self)
    }
}

impl IntoAttributeValue for i16 {
    open spec fn spec_value_kind() -> ValueKind { ValueKind::I16 }

    fn into_attribute_value(self) -> (r: AttributeValue) {
        AttributeValue::I16(self)
    }
}

impl IntoAttributeValue for i32 {
    open spec fn spec_value_kind() -> ValueKind { ValueKind::I32 }

    fn into_attribute_value(self) -> (r: AttributeValue) {
        AttributeValue::I32(self)
    }
}

impl IntoAttributeValue for i64 {
    open spec fn spec_value_kind() -> ValueKind { ValueKind::I64 }

    fn into_attribute_value(self) -> (r: AttributeValue) {
        AttributeValue::I64(self)
    }
}

impl IntoAttributeValue for i128 {
    open spec fn spec_value_kind() -> ValueKind { ValueKind::I128 }

    fn into_attribute_value(self) -> (r: AttributeValue) {
        AttributeValue::I128(self)
    }
}

impl IntoAttributeValue for isize {
    open spec fn spec_value_kind() -> ValueKind { ValueKind::Isize }

    fn into_attribute_value(self) -> (r: AttributeValue) {
        AttributeValue::Isize(self)
    }
}

impl IntoAttributeValue for () {
    open spec fn spec_value_kind() -> ValueKind { ValueKind::Unit }

    fn into_attribute_value(self) -> (r: AttributeValue) {
        AttributeValue::Unit
    }
}

impl IntoAttributeValue for String {
    open spec fn spec_value_kind() -> ValueKind { ValueKind::Text }

    fn into_attribute_value(self) -> (r: AttributeValue) {
        AttributeValue::Text(self)
    }
}

impl IntoAttributeValue for UUID {
    open spec fn spec_value_kind() -> ValueKind { ValueKind::Uuid }

    fn into_attribute_value(self) -> (r: AttributeValue) {
        AttributeValue::Uuid(self)
    }
}

impl IntoAttributeValue for Vec<u8> {
    open spec fn spec_value_kind() -> ValueKind { ValueKind::Bytes }

    fn into_attribute_value(self) -> (r: AttributeValue) {
        AttributeValue::Bytes(self)
    }
}

impl IntoAttributeValue for gatt::ServiceInclude {
    open spec fn spec_value_kind() -> ValueKind { ValueKind::ServiceInclude }

    fn into_attribute_value(self) -> (r: AttributeValue) {
        AttributeValue::ServiceInclude(self)
    }
}

impl IntoAttributeValue for Declaration {
    open spec fn spec_value_kind() -> ValueKind { ValueKind::Declaration }

    fn into_attribute_value(self) -> (r: AttributeValue) {
        AttributeValue::Declaration(self)
    }
}

impl IntoAttributeValue for Vec<ExtendedProperties> {
    open spec fn spec_value_kind() -> ValueKind { ValueKind::ExtendedProperties }

    fn into_attribute_value(self) -> (r: AttributeValue) {
        AttributeValue::ExtendedProperties(self)
    }
}

impl IntoAttributeValue for Vec<ClientConfiguration> {
    open spec fn spec_value_kind() -> ValueKind { ValueKind::ClientConfiguration }

    fn into_attribute_value(self) -> (r: AttributeValue) {
        AttributeValue::ClientConfiguration(self)
    }
}

impl IntoAttributeValue for Vec<ServerConfiguration> {
    open spec fn spec_value_kind() -> ValueKind { ValueKind::ServerConfiguration }

    fn into_attribute_value(self) -> (r: AttributeValue) {
        AttributeValue::ServerConfiguration(self)
    }
}

impl<T: IntoAttributeValue> IntoAttributeValue for Box<T> {
    open spec fn spec_value_kind() -> ValueKind { T::spec_value_kind() }

    fn into_attribute_value(self) -> (r: AttributeValue) {
        let v: T = *self;
        v.into_attribute_value()
    }
}

} // verus!

verus! {

/// The view of an attribute
pub struct AttributeView {
    /// The 128 bit value of the attribute type
    pub ty: u128,
    pub handle: Option<u16>,
    pub permissions: Seq<AttributePermissions>,
    pub kind: ValueKind,
    /// The transfer format of the attribute value
    pub bytes: Seq<u8>,
}

/// An Attribute
///
/// Attributes contain the information required for a client to get data from a server
/// device. Each attribute contains an attribute type, an attribute handle, and permissions for
/// accessing the attribute data.
///
/// The attribute type is a UUID used for labeling what the attribute is. The handle is a
/// reference to the attribute on the server; all handle values on a server are unique. The
/// permissions `Read` and `Write` define how the client can access the data, whereas the
/// permissions `Encryption`, `Authentication`, and `Authorization` define the conditions where
/// `Read` and `Write` permissions are available to the client.
pub struct Attribute {
    /// The Attribute type
    ty: UUID,
    /// The attribute handle
    handle: Option<u16>,
    /// Access Permissions
    permissions: Vec<AttributePermissions>,
    /// Attribute value
    value: AttributeValue,
}

impl View for Attribute {
    type V = AttributeView;

    closed spec fn view(&self) -> AttributeView {
        AttributeView {
            ty: self.ty@,
            handle: self.handle,
            permissions: self.permissions@,
            kind: self.value.spec_kind(),
            bytes: self.value.spec_bytes(),
        }
    }
}

impl Attribute {
    /// Create an Attribute
    ///
    /// Every part except for the handle is assigned with the inputs. The handle is set once the
    /// attribute is pushed on to the server. The input 'permissions' will have all duplicates
    /// removed, and they are kept in their order.
    pub fn new<V: IntoAttributeValue>(attribute_type: UUID, permissions: Vec<AttributePermissions>, value: V) -> (r: Attribute)
        ensures
            r@.ty == attribute_type@,
            r@.handle is None,
            spec_sorted_set(r@.permissions),
            forall|p: AttributePermissions| r@.permissions.contains(p) <==> permissions@.contains(p),
            r@.bytes == V::serialize_spec(value@),
            r@.kind == V::spec_value_kind(),
    {
        Attribute {
            ty: attribute_type,
            handle: None,
            permissions: sort_dedup_permissions(permissions),
            value: value.into_attribute_value(),
        }
    }

    /// The attribute of the reserved handle 0
    ///
    /// Its type is the UUID 0, it can only be read, its value is empty and it cannot be
    /// written.
    pub fn reserved() -> (r: Attribute)
        ensures
            r@ == spec_reserved_attribute(),
    {
        let mut permissions: Vec<AttributePermissions> = Vec::new();
        permissions.push(AttributePermissions::Read);
        Attribute { ty: UUID::from_u128(0), handle: Some(0), permissions, value: AttributeValue::Reserved }
    }

    pub fn get_type(&self) -> (r: UUID)
        ensures
            r@ == self@.ty,
    {
        self.ty
    }

    pub fn get_permissions(&self) -> (r: &[AttributePermissions])
        ensures
            r@ == self@.permissions,
    {
        self.permissions.as_slice()
    }

    pub fn get_handle(&self) -> (r: Option<u16>)
        ensures
            r == self@.handle,
    {
        self.handle
    }

    pub fn set_handle(&mut self, handle: u16)
        ensures
            final(self)@ == (AttributeView { handle: Some(handle), ..old(self)@ }),
    {
        self.handle = Some(handle);
    }

    /// The transfer format of the attribute value
    pub fn get_value_bytes(&self) -> (r: Vec<u8>)
        ensures
            r@ == self@.bytes,
    {
        self.value.value_bytes()
    }

    /// Set the value from its transfer format
    pub fn set_val_from_raw(&mut self, raw: &[u8]) -> (r: Result<(), TransferFormatError>)
        ensures
            r is Ok <==> spec_kind_accepts(old(self)@.kind, raw@),
            r is Ok ==> final(self)@ == (AttributeView { bytes: spec_kind_canonical(old(self)@.kind, raw@), ..old(self)@ }),
            r is Err ==> final(self)@ == old(self)@,
            r matches Err(e) ==> e.pdu_err == pdu::Error::InvalidPDU,
    {
        self.value.set_from_raw(raw)
    }
}

/// The view of the attribute of the reserved handle 0
pub open spec fn spec_reserved_attribute() -> AttributeView {
    AttributeView {
        ty: 0,
        handle: Some(0),
        permissions: seq![AttributePermissions::Read],
        kind: ValueKind::Reserved,
        bytes: Seq::empty(),
    }
}

} // verus!

verus! {

/// Errors of the Attribute Protocol
pub enum Error {
    Other(&'static str),
    /// Returned when there is no connection to the bluetooth controller
    NotConnected,
    /// A PDU exceeds the MTU set between the client and server
    MtuExceeded,
    /// The desired MTU is smaller than the minimum value
    TooSmallMtu,
    /// An Error PDU is received
    Pdu(pdu::Pdu<pdu::ErrorAttributeParameter>),
    /// A different pdu was expected
    ///
    /// This contains the opcode value of the unexpectedly received pdu
    UnexpectedPdu(u8),
    /// A Transfer format error
    TransferFormat(TransferFormatError),
    /// An empty PDU
    Empty,
    /// Unknown opcode
    ///
    /// An `UnknownOpcode` is for opcodes that are not recognized by the ATT protocol. They may
    /// be valid for a higher layer protocol.
    UnknownOpcode(u8),
    /// Custom opcode is already used by the Att protocol
    AttUsedOpcode(u8),
    /// Incorrect Channel Identifier
    IncorrectChannelId,
    /// Pdu Error
    PduError(pdu::Error),
}

} // verus!
