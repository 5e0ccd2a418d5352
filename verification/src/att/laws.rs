//! What the transfer formats keep: a value is read back from the bytes it is written as, and
//! the answers of a server are read by a client as what the server meant
use vstd::prelude::*;
use super::TransferFormat;
use super::le::{le_bytes, lemma_le_roundtrip, lemma_pow256_values, lemma_le_bytes_len,
    lemma_twos_complement_roundtrip};
use super::pdu::{self, Pdu, PduView, HandleRange, ErrorAttributeParameter,
    spec_error_well_formed, spec_opcode_signed};
use super::server::response::{spec_error_pdu, spec_exchange_mtu_response};
use super::client::{spec_connect_mtu, spec_response_error};
use crate::uuid::{UUID, spec_short_u16, lemma_uuid_short_u16_inverse};

verus! {

/// Each unsigned integer is read back from its transfer format.
pub proof fn lemma_unsigned_roundtrip(a: u8, b: u16, c: u32, d: u64, e: u128)
    ensures
        <u8 as TransferFormat>::parse_spec(<u8 as TransferFormat>::serialize_spec(a)) == Some(a),
        <u16 as TransferFormat>::parse_spec(<u16 as TransferFormat>::serialize_spec(b)) == Some(b),
        <u32 as TransferFormat>::parse_spec(<u32 as TransferFormat>::serialize_spec(c)) == Some(c),
        <u64 as TransferFormat>::parse_spec(<u64 as TransferFormat>::serialize_spec(d)) == Some(d),
        <u128 as TransferFormat>::parse_spec(<u128 as TransferFormat>::serialize_spec(e)) == Some(e),
{
    lemma_pow256_values();
    lemma_le_roundtrip(a as nat, 1);
    lemma_le_roundtrip(b as nat, 2);
    lemma_le_roundtrip(c as nat, 4);
    lemma_le_roundtrip(d as nat, 8);
    lemma_le_roundtrip(e as nat, 16);
}

/// Each signed integer is read back from its transfer format.
pub proof fn lemma_signed_roundtrip(a: i8, b: i16, c: i32, d: i64, e: i128)
    ensures
        <i8 as TransferFormat>::parse_spec(<i8 as TransferFormat>::serialize_spec(a)) == Some(a),
        <i16 as TransferFormat>::parse_spec(<i16 as TransferFormat>::serialize_spec(b)) == Some(b),
        <i32 as TransferFormat>::parse_spec(<i32 as TransferFormat>::serialize_spec(c)) == Some(c),
        <i64 as TransferFormat>::parse_spec(<i64 as TransferFormat>::serialize_spec(d)) == Some(d),
        <i128 as TransferFormat>::parse_spec(<i128 as TransferFormat>::serialize_spec(e)) == Some(e),
{
    lemma_pow256_values();
    lemma_twos_complement_roundtrip(a as int, 1);
    lemma_le_roundtrip(super::le::twos_complement(a as int, 1), 1);
    lemma_twos_complement_roundtrip(b as int, 2);
    lemma_le_roundtrip(super::le::twos_complement(b as int, 2), 2);
    lemma_twos_complement_roundtrip(c as int, 4);
    lemma_le_roundtrip(super::le::twos_complement(c as int, 4), 4);
    lemma_twos_complement_roundtrip(d as int, 8);
    lemma_le_roundtrip(super::le::twos_complement(d as int, 8), 8);
    lemma_twos_complement_roundtrip(e as int, 16);
    lemma_le_roundtrip(super::le::twos_complement(e as int, 16), 16);
}

/// The transfer format of an unsigned integer that was read from bytes is those bytes.
pub proof fn lemma_unsigned_bytes_roundtrip(raw: Seq<u8>)
    ensures
        <u8 as TransferFormat>::parse_spec(raw) matches Some(v) ==> <u8 as TransferFormat>::serialize_spec(v) == raw,
        <u16 as TransferFormat>::parse_spec(raw) matches Some(v) ==> <u16 as TransferFormat>::serialize_spec(v) == raw,
        <u32 as TransferFormat>::parse_spec(raw) matches Some(v) ==> <u32 as TransferFormat>::serialize_spec(v) == raw,
        <u64 as TransferFormat>::parse_spec(raw) matches Some(v) ==> <u64 as TransferFormat>::serialize_spec(v) == raw,
        <u128 as TransferFormat>::parse_spec(raw) matches Some(v) ==> <u128 as TransferFormat>::serialize_spec(v) == raw,
{
    lemma_pow256_values();
    super::le::lemma_le_value_bound(raw);
    super::le::lemma_le_bytes_of_value(raw);
}

/// The transfer format of a signed integer that was read from bytes is those bytes.
pub proof fn lemma_signed_bytes_roundtrip(raw: Seq<u8>)
    ensures
        <i8 as TransferFormat>::parse_spec(raw) matches Some(v) ==> <i8 as TransferFormat>::serialize_spec(v) == raw,
        <i16 as TransferFormat>::parse_spec(raw) matches Some(v) ==> <i16 as TransferFormat>::serialize_spec(v) == raw,
        <i32 as TransferFormat>::parse_spec(raw) matches Some(v) ==> <i32 as TransferFormat>::serialize_spec(v) == raw,
        <i64 as TransferFormat>::parse_spec(raw) matches Some(v) ==> <i64 as TransferFormat>::serialize_spec(v) == raw,
        <i128 as TransferFormat>::parse_spec(raw) matches Some(v) ==> <i128 as TransferFormat>::serialize_spec(v) == raw,
{
    lemma_pow256_values();
    super::le::lemma_le_value_bound(raw);
    super::le::lemma_le_bytes_of_value(raw);
    if raw.len() > 0 {
        super::le::lemma_signed_value_roundtrip(super::le::le_value(raw), raw.len());
    }
}

/// A UUID is read back from its transfer format: two bytes for one that has a 16 bit short
/// form, sixteen bytes otherwise.
pub proof fn lemma_uuid_roundtrip(u: u128)
    ensures
        <UUID as TransferFormat>::parse_spec(<UUID as TransferFormat>::serialize_spec(u)) == Some(u),
        <UUID as TransferFormat>::serialize_spec(u).len() == if spec_short_u16(u) is Some { 2nat } else { 16nat },
{
    lemma_pow256_values();
    match spec_short_u16(u) {
        Some(short) => {
            lemma_le_roundtrip(short as nat, 2);
            lemma_uuid_short_u16_inverse(u);
        },
        None => {
            lemma_le_roundtrip(u as nat, 16);
        },
    }
}

/// A string is read back from its transfer format, its UTF-8 bytes.
pub proof fn lemma_string_roundtrip(s: Seq<char>)
    ensures
        <String as TransferFormat>::parse_spec(<String as TransferFormat>::serialize_spec(s)) == Some(s),
{
    vstd::utf8::encode_utf8_decode_utf8(s);
    vstd::utf8::encode_utf8_valid_utf8(s);
}

/// A handle range is read back from its transfer format.
pub proof fn lemma_handle_range_roundtrip(r: HandleRange)
    ensures
        <HandleRange as TransferFormat>::parse_spec(<HandleRange as TransferFormat>::serialize_spec(r)) == Some(r),
{
    lemma_pow256_values();
    lemma_le_roundtrip(r.starting_handle as nat, 2);
    lemma_le_roundtrip(r.ending_handle as nat, 2);
    let raw = <HandleRange as TransferFormat>::serialize_spec(r);
    assert(raw.subrange(0, 2) =~= le_bytes(r.starting_handle as nat, 2));
    assert(raw.subrange(2, 4) =~= le_bytes(r.ending_handle as nat, 2));
}

/// The parameters of the requests and responses of fixed layout are read back from their
/// transfer formats: a find by type value response entry, a read blob request and a read by
/// (group) type request of either size of UUID.
pub proof fn lemma_fixed_parameters_roundtrip(t: pdu::TypeValueResponse, b: pdu::BlobRequest, range: HandleRange,
    ty: u128)
    ensures
        <pdu::TypeValueResponse as TransferFormat>::parse_spec(<pdu::TypeValueResponse as TransferFormat>::serialize_spec(t))
            == Some(t),
        <pdu::BlobRequest as TransferFormat>::parse_spec(<pdu::BlobRequest as TransferFormat>::serialize_spec(b))
            == Some(b),
        <pdu::TypeRequest as TransferFormat>::parse_spec(<pdu::TypeRequest as TransferFormat>::serialize_spec((range, ty)))
            == Some((range, ty)),
{
    lemma_pow256_values();
    lemma_le_roundtrip(t.handle as nat, 2);
    lemma_le_roundtrip(t.group as nat, 2);
    let raw_t = <pdu::TypeValueResponse as TransferFormat>::serialize_spec(t);
    assert(raw_t.subrange(0, 2) =~= le_bytes(t.handle as nat, 2));
    assert(raw_t.subrange(2, 4) =~= le_bytes(t.group as nat, 2));
    lemma_le_roundtrip(b.handle as nat, 2);
    lemma_le_roundtrip(b.offset as nat, 2);
    let raw_b = <pdu::BlobRequest as TransferFormat>::serialize_spec(b);
    assert(raw_b.subrange(0, 2) =~= le_bytes(b.handle as nat, 2));
    assert(raw_b.subrange(2, 4) =~= le_bytes(b.offset as nat, 2));
    lemma_handle_range_roundtrip(range);
    lemma_uuid_roundtrip(ty);
    let raw_r = <pdu::TypeRequest as TransferFormat>::serialize_spec((range, ty));
    assert(raw_r.subrange(0, 4) =~= <HandleRange as TransferFormat>::serialize_spec(range));
    assert(raw_r.skip(4) =~= <UUID as TransferFormat>::serialize_spec(ty));
}

/// The parameters that carry a value are read back from their transfer formats where the value
/// is read back from its own: a handle with data, a prepare write request and a find by type
/// value request.
pub proof fn lemma_value_parameters_roundtrip<D: TransferFormat>(handle: u16, offset: u16, range: HandleRange,
    ty: u16, value: D::V)
    requires
        D::parse_spec(D::serialize_spec(value)) == Some(value),
    ensures
        <pdu::HandleWithData<D> as TransferFormat>::parse_spec(
            <pdu::HandleWithData<D> as TransferFormat>::serialize_spec((handle, value))) == Some((handle, value)),
        <pdu::PrepareWriteRequest<D> as TransferFormat>::parse_spec(
            <pdu::PrepareWriteRequest<D> as TransferFormat>::serialize_spec((handle, offset, value)))
            == Some((handle, offset, value)),
        <pdu::TypeValueRequest<D> as TransferFormat>::parse_spec(
            <pdu::TypeValueRequest<D> as TransferFormat>::serialize_spec((range, ty, value))) == Some((range, ty, value)),
{
    lemma_pow256_values();
    lemma_le_roundtrip(handle as nat, 2);
    lemma_le_roundtrip(offset as nat, 2);
    lemma_le_roundtrip(ty as nat, 2);
    let raw_h = <pdu::HandleWithData<D> as TransferFormat>::serialize_spec((handle, value));
    assert(raw_h.subrange(0, 2) =~= le_bytes(handle as nat, 2));
    assert(raw_h.skip(2) =~= D::serialize_spec(value));
    let raw_p = <pdu::PrepareWriteRequest<D> as TransferFormat>::serialize_spec((handle, offset, value));
    assert(raw_p.subrange(0, 2) =~= le_bytes(handle as nat, 2));
    assert(raw_p.subrange(2, 4) =~= le_bytes(offset as nat, 2));
    assert(raw_p.skip(4) =~= D::serialize_spec(value));
    lemma_handle_range_roundtrip(range);
    let raw_t = <pdu::TypeValueRequest<D> as TransferFormat>::serialize_spec((range, ty, value));
    assert(raw_t.subrange(0, 4) =~= <HandleRange as TransferFormat>::serialize_spec(range));
    assert(raw_t.subrange(4, 6) =~= le_bytes(ty as nat, 2));
    assert(raw_t.skip(6) =~= D::serialize_spec(value));
}

/// The bytes of one handle and type pair
spec fn spec_pair_bytes(pair: (u16, u128), wide: bool) -> Seq<u8> {
    le_bytes(pair.0 as nat, 2) + if wide {
        le_bytes(pair.1 as nat, 16)
    } else {
        le_bytes(spec_short_u16(pair.1).unwrap() as nat, 2)
    }
}

/// The pairs read from two runs of whole pairs are the pairs of the first then those of the
/// second
proof fn lemma_parse_pairs_append(x: Seq<u8>, y: Seq<u8>, wide: bool)
    requires
        pdu::spec_parse_handles_with_types(x, wide) is Some,
        pdu::spec_parse_handles_with_types(y, wide) is Some,
    ensures
        pdu::spec_parse_handles_with_types(x + y, wide) == Some(
            pdu::spec_parse_handles_with_types(x, wide).unwrap() + pdu::spec_parse_handles_with_types(y, wide).unwrap()),
    decreases x.len(),
{
    let size: int = if wide { 18 } else { 4 };
    if x.len() == 0 {
        assert(x + y =~= y);
        assert(Seq::<(u16, u128)>::empty() + pdu::spec_parse_handles_with_types(y, wide).unwrap()
            =~= pdu::spec_parse_handles_with_types(y, wide).unwrap());
    } else {
        lemma_parse_pairs_append(x.skip(size), y, wide);
        assert((x + y).skip(size) =~= x.skip(size) + y);
        assert((x + y).subrange(0, 2) =~= x.subrange(0, 2));
        assert((x + y).subrange(2, 4) =~= x.subrange(2, 4));
        if wide {
            assert((x + y).subrange(2, 18) =~= x.subrange(2, 18));
        }
        let a = pdu::spec_parse_handles_with_types(x, wide).unwrap();
        let rest = pdu::spec_parse_handles_with_types(x.skip(size), wide).unwrap();
        let b = pdu::spec_parse_handles_with_types(y, wide).unwrap();
        assert(a == seq![a[0]] + rest);
        assert(seq![a[0]] + (rest + b) =~= a + b);
    }
}

/// One pair is read back from its bytes
proof fn lemma_parse_one_pair(pair: (u16, u128), wide: bool)
    requires
        !wide ==> spec_short_u16(pair.1) is Some,
    ensures
        pdu::spec_parse_handles_with_types(spec_pair_bytes(pair, wide), wide) == Some(seq![pair]),
{
    reveal_with_fuel(pdu::spec_parse_handles_with_types, 2);
    lemma_pow256_values();
    lemma_le_roundtrip(pair.0 as nat, 2);
    let raw = spec_pair_bytes(pair, wide);
    assert(raw.subrange(0, 2) =~= le_bytes(pair.0 as nat, 2));
    if wide {
        lemma_le_roundtrip(pair.1 as nat, 16);
        assert(raw.subrange(2, 18) =~= le_bytes(pair.1 as nat, 16));
        assert(raw.skip(18) =~= Seq::<u8>::empty());
    } else {
        let short = spec_short_u16(pair.1).unwrap();
        lemma_le_roundtrip(short as nat, 2);
        lemma_uuid_short_u16_inverse(pair.1);
        assert(raw.subrange(2, 4) =~= le_bytes(short as nat, 2));
        assert(raw.skip(4) =~= Seq::<u8>::empty());
    }
    assert(seq![pair] + Seq::<(u16, u128)>::empty() =~= seq![pair]);
}

/// Pairs are read back from their bytes
proof fn lemma_parse_serialized_pairs(s: Seq<(u16, u128)>, wide: bool)
    requires
        !wide ==> pdu::spec_all_short(s),
    ensures
        pdu::spec_parse_handles_with_types(pdu::spec_serialize_handles_with_types(s, wide), wide) == Some(s),
    decreases s.len(),
{
    if s.len() > 0 {
        let init = s.drop_last();
        assert(!wide ==> pdu::spec_all_short(init)) by {
            if !wide {
                assert forall|i: int| 0 <= i < init.len() implies (#[trigger] spec_short_u16(init[i].1)) is Some by {
                    assert(init[i] == s[i]);
                }
            }
        }
        lemma_parse_serialized_pairs(init, wide);
        assert(!wide ==> spec_short_u16(s[s.len() - 1].1) is Some);
        lemma_parse_one_pair(s.last(), wide);
        let head = pdu::spec_serialize_handles_with_types(init, wide);
        assert(pdu::spec_serialize_handles_with_types(s, wide) =~= head + spec_pair_bytes(s.last(), wide));
        lemma_parse_pairs_append(head, spec_pair_bytes(s.last(), wide), wide);
        assert(init + seq![s.last()] =~= s);
    }
}

/// The handle and type pairs of a find information response are read back from its transfer
/// format.
pub proof fn lemma_find_information_roundtrip(s: Seq<(u16, u128)>)
    ensures
        <pdu::FormattedHandlesWithType as TransferFormat>::parse_spec(
            <pdu::FormattedHandlesWithType as TransferFormat>::serialize_spec(s)) == Some(s),
{
    let wide = !pdu::spec_all_short(s);
    lemma_parse_serialized_pairs(s, wide);
    let raw = <pdu::FormattedHandlesWithType as TransferFormat>::serialize_spec(s);
    assert(raw.skip(1) =~= pdu::spec_serialize_handles_with_types(s, wide));
}

/// The items read from two runs of whole chunks are the items of the first then those of the
/// second
proof fn lemma_parse_chunks_append<T: TransferFormat + View<V = T>>(x: Seq<u8>, y: Seq<u8>, size: nat)
    requires
        super::parse_chunks::<T>(x, size) is Some,
        super::parse_chunks::<T>(y, size) is Some,
    ensures
        super::parse_chunks::<T>(x + y, size) == Some(
            super::parse_chunks::<T>(x, size).unwrap() + super::parse_chunks::<T>(y, size).unwrap()),
    decreases x.len(),
{
    let b = super::parse_chunks::<T>(y, size).unwrap();
    if x.len() == 0 {
        assert(x + y =~= y);
        assert(Seq::<T>::empty() + b =~= b);
    } else {
        lemma_parse_chunks_append::<T>(x.skip(size as int), y, size);
        assert((x + y).skip(size as int) =~= x.skip(size as int) + y);
        assert((x + y).take(size as int) =~= x.take(size as int));
        let a = super::parse_chunks::<T>(x, size).unwrap();
        let rest = super::parse_chunks::<T>(x.skip(size as int), size).unwrap();
        assert(a == seq![a[0]] + rest);
        assert(seq![a[0]] + (rest + b) =~= a + b);
    }
}

/// A list of values of a fixed size is read back from its transfer format where each value is
/// read back from its own and its transfer format has that size.
pub proof fn lemma_vec_roundtrip<T: TransferFormat + super::TransferFormatSize + super::IdentityView>(s: Seq<T>)
    requires
        forall|x: T| #[trigger] T::parse_spec(T::serialize_spec(x)) == Some(x) && T::serialize_spec(x).len() == T::size_spec(),
        T::size_spec() > 0,
    ensures
        <Vec<T> as TransferFormat>::parse_spec(<Vec<T> as TransferFormat>::serialize_spec(s)) == Some(s),
    decreases s.len(),
{
    let size = T::size_spec();
    if s.len() == 0 {
        assert(super::serialize_all(s) =~= Seq::<u8>::empty());
    } else {
        let init = s.drop_last();
        lemma_vec_roundtrip::<T>(init);
        let last = T::serialize_spec(s.last());
        assert(T::parse_spec(last) == Some(s.last()));
        assert(last.take(size as int) =~= last);
        assert(last.skip(size as int) =~= Seq::<u8>::empty());
        assert(super::parse_chunks::<T>(last.skip(size as int), size) == Some(Seq::<T>::empty()));
        assert(super::parse_chunks::<T>(last, size) == Some(seq![s.last()] + Seq::<T>::empty()));
        assert(seq![s.last()] + Seq::<T>::empty() =~= seq![s.last()]);
        lemma_parse_chunks_append::<T>(super::serialize_all(init), last, size);
        assert(init + seq![s.last()] =~= s);
    }
}

/// The entries of a read by type response and of a read by group type response are read back
/// from their transfer formats where the data is read back from its own, which has its fixed
/// size.
pub proof fn lemma_type_responses_roundtrip<D: TransferFormat + super::TransferFormatSize + super::IdentityView>(
    handle: u16, end_group_handle: u16, data: D)
    requires
        D::parse_spec(D::serialize_spec(data)) == Some(data),
        D::serialize_spec(data).len() == D::size_spec(),
    ensures
        <pdu::ReadTypeResponse<D> as TransferFormat>::parse_spec(
            <pdu::ReadTypeResponse<D> as TransferFormat>::serialize_spec(pdu::ReadTypeResponse { handle, data }))
            == Some(pdu::ReadTypeResponse { handle, data }),
        <pdu::ReadGroupTypeResponse<D> as TransferFormat>::parse_spec(
            <pdu::ReadGroupTypeResponse<D> as TransferFormat>::serialize_spec(
                pdu::ReadGroupTypeResponse { handle, end_group_handle, data }))
            == Some(pdu::ReadGroupTypeResponse { handle, end_group_handle, data }),
{
    lemma_pow256_values();
    lemma_le_roundtrip(handle as nat, 2);
    lemma_le_roundtrip(end_group_handle as nat, 2);
    let raw_t = <pdu::ReadTypeResponse<D> as TransferFormat>::serialize_spec(pdu::ReadTypeResponse { handle, data });
    assert(raw_t.subrange(0, 2) =~= le_bytes(handle as nat, 2));
    assert(raw_t.skip(2) =~= D::serialize_spec(data));
    let raw_g = <pdu::ReadGroupTypeResponse<D> as TransferFormat>::serialize_spec(
        pdu::ReadGroupTypeResponse { handle, end_group_handle, data });
    assert(raw_g.subrange(0, 2) =~= le_bytes(handle as nat, 2));
    assert(raw_g.subrange(2, 4) =~= le_bytes(end_group_handle as nat, 2));
    assert(raw_g.skip(4) =~= D::serialize_spec(data));
}

/// A PDU without a signature is read back from its transfer format where its parameters are
/// read back from theirs.
pub proof fn lemma_pdu_roundtrip<P: TransferFormat>(v: PduView<P::V>)
    requires
        !spec_opcode_signed(v.opcode),
        v.signature is None,
        P::parse_spec(P::serialize_spec(v.parameters)) == Some(v.parameters),
    ensures
        <Pdu<P> as TransferFormat>::parse_spec(<Pdu<P> as TransferFormat>::serialize_spec(v)) == Some(v),
{
    let raw = <Pdu<P> as TransferFormat>::serialize_spec(v);
    assert(raw.skip(1) =~= P::serialize_spec(v.parameters));
}

/// The error response that a server sends is read back as the request opcode, the handle and
/// the error that the server sent.
pub proof fn lemma_error_response_roundtrip(request_opcode: u8, handle: u16, error: pdu::Error)
    requires
        spec_error_well_formed(error),
    ensures
        <Pdu<ErrorAttributeParameter> as TransferFormat>::parse_spec(spec_error_pdu(request_opcode, handle, error))
            == Some(pdu::spec_pdu(0x01u8, ErrorAttributeParameter { request_opcode, requested_handle: handle, error })),
        forall|e: super::Error| spec_response_error(spec_error_pdu(request_opcode, handle, error), e)
            ==> (e matches super::Error::Pdu(x) && x@ == pdu::spec_pdu(0x01u8,
                ErrorAttributeParameter { request_opcode, requested_handle: handle, error })),
{
    lemma_pow256_values();
    lemma_le_roundtrip(handle as nat, 2);
    pdu::lemma_error_from_raw_roundtrip(error);
    let raw = spec_error_pdu(request_opcode, handle, error);
    assert(raw.skip(1).subrange(1, 3) =~= le_bytes(handle as nat, 2));
}

/// A client connecting with the MTU `client_mtu` to a server that answers with its MTU
/// `server_mtu` uses the smaller of the two.
pub proof fn lemma_connect_mtu(client_mtu: u16, server_mtu: u16)
    ensures
        spec_connect_mtu(client_mtu, spec_exchange_mtu_response(server_mtu))
            == Some(if client_mtu <= server_mtu { client_mtu } else { server_mtu }),
{
    lemma_pow256_values();
    lemma_le_roundtrip(server_mtu as nat, 2);
    lemma_le_bytes_len(server_mtu as nat, 2);
    let raw = spec_exchange_mtu_response(server_mtu);
    assert(raw.subrange(1, 3) =~= le_bytes(server_mtu as nat, 2));
}

} // verus!
