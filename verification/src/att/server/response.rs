//! The responses of an attribute server to the requests of a client
//!
//! Each request is answered by the PDUs that the functions here build from the attributes of
//! the server. The spec functions state those PDUs byte for byte.
use vstd::prelude::*;
use crate::att::{Attribute, AttributeView, TransferFormat, spec_kind_accepts, spec_kind_canonical};
use crate::att::pdu;
use crate::att::pdu::{spec_error_raw, u16_bytes, concat};
use crate::att::le::{le_value, le_bytes, lemma_le_bytes_len};
use crate::att::server::spec_attribute_views;
use crate::att::le::le_encode;
use crate::uuid::{UUID, spec_short_u16, spec_uuid_of_short};
use crate::att::{AttributePermissions, AttributeRestriction, EncryptionKeySize};
use crate::att::server::{spec_validate_permissions, validate_permissions};

verus! {

/// The bytes of an error response to the request with opcode `request_opcode`
pub open spec fn spec_error_pdu(request_opcode: u8, handle: u16, error: pdu::Error) -> Seq<u8> {
    seq![0x01u8, request_opcode] + le_bytes(handle as nat, 2) + seq![spec_error_raw(error)]
}

/// The bytes of an error response
pub fn error_pdu(request_opcode: u8, handle: u16, error: pdu::Error) -> (r: Vec<u8>)
    ensures
        r@ == spec_error_pdu(request_opcode, handle, error),
{
    let pdu = pdu::error_response(request_opcode, handle, error);
    let r = TransferFormat::into(&pdu);
    assert(r@ =~= spec_error_pdu(request_opcode, handle, error));
    r
}

/// The bytes of an exchange MTU response that tells the MTU `mtu`
pub open spec fn spec_exchange_mtu_response(mtu: u16) -> Seq<u8> {
    seq![0x03u8] + le_bytes(mtu as nat, 2)
}

/// The bytes of an exchange MTU response
pub fn exchange_mtu_response_pdu(mtu: u16) -> (r: Vec<u8>)
    ensures
        r@ == spec_exchange_mtu_response(mtu),
{
    let r = TransferFormat::into(&pdu::exchange_mtu_response(mtu));
    assert(r@ =~= spec_exchange_mtu_response(mtu));
    r
}

/// The answer to a read request of the attribute at `handle`: its value, or an invalid
/// handle error where there is no such attribute
pub open spec fn spec_read_response(attributes: Seq<AttributeView>, handle: u16) -> Seq<u8> {
    if handle < attributes.len() {
        seq![0x0Bu8] + attributes[handle as int].bytes
    } else {
        spec_error_pdu(0x0A, handle, pdu::Error::InvalidHandle)
    }
}

/// The answer to a read request
pub fn read_response_pdu(attributes: &[Attribute], handle: u16) -> (r: Vec<u8>)
    ensures
        r@ == spec_read_response(spec_attribute_views(attributes@), handle),
{
    if (handle as usize) < attributes.len() {
        let mut data: Vec<u8> = Vec::new();
        data.push(0x0Bu8);
        let r = concat(data, attributes[handle as usize].get_value_bytes());
        assert(r@ =~= spec_read_response(spec_attribute_views(attributes@), handle));
        r
    } else {
        error_pdu(0x0A, handle, pdu::Error::InvalidHandle)
    }
}

/// The handle that the parameters of a write request name
pub open spec fn spec_write_handle(raw: Seq<u8>) -> u16 {
    le_value(raw.subrange(0, 2)) as u16
}

/// The attributes after a write request with the parameters `raw` (the bytes after the
/// opcode), and the answer to it
///
/// Parameters of fewer than two bytes are an invalid PDU. The attribute at the named handle
/// takes the written value where it is a transfer format of the attribute's type; otherwise
/// the value stays and the request is answered with an error.
pub open spec fn spec_write(attributes: Seq<AttributeView>, raw: Seq<u8>) -> (Seq<AttributeView>, Seq<u8>) {
    if raw.len() < 2 {
        (attributes, spec_error_pdu(0x12, 0, pdu::Error::InvalidPDU))
    } else {
        let handle = spec_write_handle(raw);
        if handle >= attributes.len() {
            (attributes, spec_error_pdu(0x12, handle, pdu::Error::InvalidHandle))
        } else {
            let old = attributes[handle as int];
            if spec_kind_accepts(old.kind, raw.skip(2)) {
                (attributes.update(handle as int, AttributeView { bytes: spec_kind_canonical(old.kind, raw.skip(2)), ..old }),
                    seq![0x13u8])
            } else {
                (attributes, spec_error_pdu(0x12, handle, pdu::Error::InvalidPDU))
            }
        }
    }
}

/// Perform a write request and answer it
pub fn write_request(attributes: &mut Vec<Attribute>, raw: &[u8]) -> (r: Vec<u8>)
    ensures
        (spec_attribute_views(final(attributes)@), r@) == spec_write(spec_attribute_views(old(attributes)@), raw@),
{
    let ghost views = spec_attribute_views(attributes@);
    if raw.len() >= 2 {
        let raw_handle = vstd::slice::slice_subrange(raw, 0, 2);
        let handle = pdu::u16_of(raw_handle);
        let raw_data = vstd::slice::slice_subrange(raw, 2, raw.len());
        assert(raw_data@ =~= raw@.skip(2));
        if (handle as usize) < attributes.len() {
            let ghost old_attr = attributes@[handle as int];
            match attributes[handle as usize].set_val_from_raw(raw_data) {
                Ok(_) => {
                    assert(spec_attribute_views(attributes@) =~= spec_write(views, raw@).0);
                    let r = TransferFormat::into(&pdu::write_response());
                    assert(r@ =~= seq![0x13u8]);
                    r
                },
                Err(e) => {
                    assert(spec_attribute_views(attributes@) =~= views);
                    error_pdu(0x12, handle, e.pdu_err)
                },
            }
        } else {
            error_pdu(0x12, handle, pdu::Error::InvalidHandle)
        }
    } else {
        error_pdu(0x12, 0, pdu::Error::InvalidPDU)
    }
}

/// The number of attributes from index `from` on, before `stop`, in a row whose type has a
/// 16 bit short form
pub open spec fn spec_short_run(attributes: Seq<AttributeView>, from: int, stop: int) -> nat
    decreases stop - from,
{
    if from >= stop {
        0
    } else if spec_short_u16(attributes[from].ty) is Some {
        1 + spec_short_run(attributes, from + 1, stop)
    } else {
        0
    }
}

/// A run of `m` attributes with a short type goes on after them
proof fn lemma_short_run(attributes: Seq<AttributeView>, from: int, stop: int, m: int)
    requires
        0 <= m,
        from + m <= stop,
        forall|j: int| from <= j < from + m ==> spec_short_u16(#[trigger] attributes[j].ty) is Some,
    ensures
        spec_short_run(attributes, from, stop) == m + spec_short_run(attributes, from + m, stop),
    decreases m,
{
    if m > 0 {
        lemma_short_run(attributes, from + 1, stop, m - 1);
    }
}

/// The handle and 16 bit type of the `n` attributes from index `start` on
pub open spec fn spec_info16_entries(attributes: Seq<AttributeView>, start: int, n: nat) -> Seq<u8>
    decreases n,
{
    if n == 0 {
        Seq::empty()
    } else {
        spec_info16_entries(attributes, start, (n - 1) as nat)
            + le_bytes((start + n - 1) as nat, 2)
            + le_bytes(spec_short_u16(attributes[start + n - 1].ty).unwrap() as nat, 2)
    }
}

/// The handle and 128 bit type of the `n` attributes from index `start` on
pub open spec fn spec_info128_entries(attributes: Seq<AttributeView>, start: int, n: nat) -> Seq<u8>
    decreases n,
{
    if n == 0 {
        Seq::empty()
    } else {
        spec_info128_entries(attributes, start, (n - 1) as nat)
            + le_bytes((start + n - 1) as nat, 2)
            + le_bytes(attributes[start + n - 1].ty as nat, 16)
    }
}

/// The smaller of two integers
pub open spec fn spec_min(a: int, b: int) -> int {
    if a <= b { a } else { b }
}

/// The answer to a find information request for the handles of `range`, its ending handle
/// included
///
/// A range that starts at 0 or ends before it starts is answered with an invalid handle
/// error, a range without attributes with an attribute not found error. Where the type of the
/// first attribute of the range has a 16 bit form, the answer lists it and the attributes
/// after it in a row that have one too, as many as fit in the MTU; otherwise it lists the
/// attributes of the range from the first one on with their 128 bit types, as many as fit.
pub open spec fn spec_find_information_response(attributes: Seq<AttributeView>, mtu: u16, range: pdu::HandleRange)
    -> Seq<u8>
{
    let sh = range.starting_handle;
    let eh = range.ending_handle;
    if sh == 0 {
        spec_error_pdu(0x04, 0, pdu::Error::InvalidHandle)
    } else if sh > eh {
        spec_error_pdu(0x04, sh, pdu::Error::InvalidHandle)
    } else {
        let start = spec_min(sh as int, attributes.len() as int);
        let stop = spec_min(eh + 1, attributes.len() as int);
        if start >= stop {
            spec_error_pdu(0x04, sh, pdu::Error::AttributeNotFound)
        } else if spec_short_u16(attributes[start].ty) is Some {
            let cap = mtu - 2;
            let more = if (cap - 1) / 4 >= 1 { (cap - 1) / 4 - 1 } else { 0 };
            let n = 1 + spec_min(spec_short_run(attributes, start + 1, stop) as int, more);
            seq![0x05u8, 0x01u8] + spec_info16_entries(attributes, start, n as nat)
        } else {
            let n = spec_min(stop - start, (mtu - 3) / 18);
            seq![0x05u8, 0x02u8] + spec_info128_entries(attributes, start, n as nat)
        }
    }
}

/// The smaller of two sizes
fn min_usize(a: usize, b: usize) -> (r: usize)
    ensures
        r == spec_min(a as int, b as int),
{
    if a <= b { a } else { b }
}

/// The entries of a find information response with 16 bit types, from the attribute at
/// `start`, whose type has the short form `first`
fn info16_entries(attributes: &[Attribute], start: usize, stop: usize, first: u16, cap: usize) -> (r: Vec<u8>)
    requires
        start < stop <= attributes@.len() <= 0x1_0000,
        4 <= cap,
        spec_short_u16(spec_attribute_views(attributes@)[start as int].ty) == Some(first),
    ensures
        ({
            let views = spec_attribute_views(attributes@);
            let more = if (cap - 1) / 4 >= 1 { (cap - 1) / 4 - 1 } else { 0 };
            r@ == spec_info16_entries(views, start as int,
                (1 + spec_min(spec_short_run(views, start + 1, stop as int) as int, more)) as nat)
        }),
{
    let ghost views = spec_attribute_views(attributes@);
    let ghost more: int = if (cap - 1) / 4 >= 1 { (cap - 1) / 4 - 1 } else { 0 };
    let mut v = concat(u16_bytes(start as u16), u16_bytes(first));
    proof {
        reveal_with_fuel(spec_info16_entries, 2);
        assert(v@ =~= spec_info16_entries(views, start as int, 1));
    }
    let mut k: usize = 1;
    loop
        invariant
            1 <= k <= stop - start,
            start < stop <= attributes@.len() <= 0x1_0000,
            4 <= cap,
            views == spec_attribute_views(attributes@),
            more == (if (cap - 1) / 4 >= 1 { (cap - 1) / 4 - 1 } else { 0 }),
            v@ == spec_info16_entries(views, start as int, k as nat),
            v@.len() == 4 * k,
            k - 1 <= more,
            forall|j: int| start + 1 <= j < start + k ==> spec_short_u16(#[trigger] views[j].ty) is Some,
        ensures
            v@ == spec_info16_entries(views, start as int,
                (1 + spec_min(spec_short_run(views, start + 1, stop as int) as int, more)) as nat),
        decreases stop - start - k,
    {
        if start + k >= stop {
            proof { lemma_short_run(views, start + 1, stop as int, k - 1); }
            break;
        }
        if v.len() + 4 >= cap {
            proof { lemma_short_run(views, start + 1, stop as int, k - 1); }
            break;
        }
        match attributes[start + k].get_type().try_into_u16() {
            Some(uuid) => {
                let ghost old_v = v@;
                v = concat(concat(v, u16_bytes((start + k) as u16)), u16_bytes(uuid));
                proof {
                    assert(v@ =~= spec_info16_entries(views, start as int, (k + 1) as nat));
                }
                k += 1;
            },
            None => {
                proof {
                    lemma_short_run(views, start + 1, stop as int, k - 1);
                }
                break;
            },
        }
    }
    v
}

/// The entries of a find information response with 128 bit types, from the attribute at
/// `from` on
fn info128_entries(attributes: &[Attribute], from: usize, stop: usize, cap: usize) -> (r: Vec<u8>)
    requires
        from <= stop <= attributes@.len() <= 0x1_0000,
        1 <= cap,
    ensures
        r@ == spec_info128_entries(spec_attribute_views(attributes@), from as int,
            spec_min(stop - from, (cap - 1) / 18) as nat),
{
    let ghost views = spec_attribute_views(attributes@);
    let mut v: Vec<u8> = Vec::new();
    let mut k: usize = 0;
    loop
        invariant
            k <= stop - from,
            from <= stop <= attributes@.len() <= 0x1_0000,
            1 <= cap,
            views == spec_attribute_views(attributes@),
            v@ == spec_info128_entries(views, from as int, k as nat),
            v@.len() == 18 * k,
            k <= (cap - 1) / 18,
        ensures
            v@ == spec_info128_entries(views, from as int, spec_min(stop - from, (cap - 1) / 18) as nat),
        decreases stop - from - k,
    {
        if from + k >= stop {
            break;
        }
        if v.len() + 18 >= cap {
            break;
        }
        let ty = attributes[from + k].get_type().into_u128();
        v = concat(concat(v, u16_bytes((from + k) as u16)), le_encode(ty, 16));
        proof {
            lemma_le_bytes_len(ty as nat, 16);
            assert(v@ =~= spec_info128_entries(views, from as int, (k + 1) as nat));
        }
        k += 1;
    }
    v
}

/// The answer to a find information request
pub fn find_information_response_pdu(attributes: &[Attribute], mtu: u16, range: pdu::HandleRange) -> (r: Vec<u8>)
    requires
        attributes@.len() <= 0x1_0000,
        mtu >= 23,
    ensures
        r@ == spec_find_information_response(spec_attribute_views(attributes@), mtu, range),
{
    let ghost views = spec_attribute_views(attributes@);
    let sh = range.starting_handle;
    let eh = range.ending_handle;
    if sh == 0 {
        error_pdu(0x04, 0, pdu::Error::InvalidHandle)
    } else if sh > eh {
        error_pdu(0x04, sh, pdu::Error::InvalidHandle)
    } else {
        let start = min_usize(sh as usize, attributes.len());
        let stop = min_usize(eh as usize + 1, attributes.len());
        if start >= stop {
            error_pdu(0x04, sh, pdu::Error::AttributeNotFound)
        } else {
            let mut head: Vec<u8> = Vec::new();
            head.push(0x05u8);
            match attributes[start].get_type().try_into_u16() {
                Some(first) => {
                    let cap = (mtu as usize) - 2;
                    head.push(0x01u8);
                    let r = concat(head, info16_entries(attributes, start, stop, first, cap));
                    assert(r@ =~= spec_find_information_response(views, mtu, range));
                    r
                },
                None => {
                    let cap = (mtu as usize) - 2;
                    head.push(0x02u8);
                    let r = concat(head, info128_entries(attributes, start, stop, cap));
                    assert(r@ =~= spec_find_information_response(views, mtu, range));
                    r
                },
            }
        }
    }
}

/// The indices of the attributes from `from` up to `to` of type `ty` and value `value`
pub open spec fn spec_type_value_matches(attributes: Seq<AttributeView>, from: int, to: int, ty: u128, value: Seq<u8>)
    -> Seq<int>
    decreases to - from,
{
    if to <= from {
        Seq::empty()
    } else {
        let prev = spec_type_value_matches(attributes, from, to - 1, ty, value);
        if attributes[to - 1].ty == ty && attributes[to - 1].bytes == value {
            prev.push(to - 1)
        } else {
            prev
        }
    }
}

/// The matches up to `j` are the first ones of the matches up to `to`
proof fn lemma_type_value_matches_prefix(attributes: Seq<AttributeView>, from: int, j: int, to: int, ty: u128,
    value: Seq<u8>)
    requires
        from <= j <= to,
    ensures
        spec_type_value_matches(attributes, from, j, ty, value).len()
            <= spec_type_value_matches(attributes, from, to, ty, value).len(),
        spec_type_value_matches(attributes, from, to, ty, value).take(
            spec_type_value_matches(attributes, from, j, ty, value).len() as int)
            == spec_type_value_matches(attributes, from, j, ty, value),
    decreases to - j,
{
    if j < to {
        lemma_type_value_matches_prefix(attributes, from, j, to - 1, ty, value);
        let a = spec_type_value_matches(attributes, from, to - 1, ty, value);
        let n = spec_type_value_matches(attributes, from, j, ty, value).len() as int;
        assert(a.push(to - 1).take(n) =~= a.take(n));
    } else {
        let m = spec_type_value_matches(attributes, from, to, ty, value);
        assert(m.take(m.len() as int) =~= m);
    }
}

/// The handle and type of each attribute of `indices`
pub open spec fn spec_type_value_entries(attributes: Seq<AttributeView>, indices: Seq<int>) -> Seq<u8>
    decreases indices.len(),
{
    if indices.len() == 0 {
        Seq::empty()
    } else {
        spec_type_value_entries(attributes, indices.drop_last())
            + le_bytes(indices.last() as nat, 2)
            + <UUID as TransferFormat>::serialize_spec(attributes[indices.last()].ty)
    }
}

/// The answer to a find by type value request with the parameters `raw` (the bytes after the
/// opcode)
///
/// The parameters hold the starting and ending handles, a 16 bit attribute type and the value;
/// the range includes its ending handle. Parameters of fewer than six bytes are an invalid PDU; a range that starts at 0 or ends
/// before it starts is answered with an invalid handle error. The answer lists the attributes
/// of the range with that type and value, as many as fit in the MTU, or is an attribute not
/// found error where none is listed.
pub open spec fn spec_find_by_type_value_response(attributes: Seq<AttributeView>, mtu: u16, raw: Seq<u8>) -> Seq<u8> {
    if raw.len() < 6 {
        spec_error_pdu(0, 0, pdu::Error::InvalidPDU)
    } else {
        let sh = le_value(raw.subrange(0, 2)) as u16;
        let eh = le_value(raw.subrange(2, 4)) as u16;
        let ty = spec_uuid_of_short(le_value(raw.subrange(4, 6)) as int) as u128;
        if sh == 0 {
            spec_error_pdu(0x06, 0, pdu::Error::InvalidHandle)
        } else if sh > eh {
            spec_error_pdu(0x06, sh, pdu::Error::InvalidHandle)
        } else {
            let start = spec_min(sh as int, attributes.len() as int);
            let end = spec_min(eh + 1, attributes.len() as int);
            let cap = spec_min((end - start) * 4, mtu - 1);
            let found = spec_type_value_matches(attributes, start, end, ty, raw.skip(6));
            let limit = if cap <= 4 { 1 } else { (cap + 3) / 4 };
            let n = spec_min(found.len() as int, limit);
            if n == 0 {
                spec_error_pdu(0x06, sh, pdu::Error::AttributeNotFound)
            } else {
                seq![0x07u8] + spec_type_value_entries(attributes, found.take(n))
            }
        }
    }
}

/// Whether the attribute at index `h` has the type `ty` and the value `value`
pub open spec fn spec_matches(attributes: Seq<AttributeView>, h: int, ty: u128, value: Seq<u8>) -> bool {
    0 <= h < attributes.len() && attributes[h].ty == ty && attributes[h].bytes == value
}

/// The handle of the entry `i` of a find by type value response: the two bytes at the start of
/// the entry of four bytes after the opcode
pub open spec fn spec_type_value_handle(r: Seq<u8>, i: int) -> nat {
    le_value(r.subrange(1 + 4 * i, 3 + 4 * i))
}

proof fn lemma_type_value_matches_props(attributes: Seq<AttributeView>, from: int, to: int, ty: u128, value: Seq<u8>)
    requires
        0 <= from,
        to <= attributes.len(),
    ensures
        ({
            let m = spec_type_value_matches(attributes, from, to, ty, value);
            &&& forall|i: int| 0 <= i < m.len() ==> from <= #[trigger] m[i] < to && spec_matches(attributes, m[i], ty, value)
            &&& forall|i: int, j: int| 0 <= i < j < m.len() ==> #[trigger] m[i] < #[trigger] m[j]
            &&& forall|h: int| from <= h < to && #[trigger] spec_matches(attributes, h, ty, value) ==> m.contains(h)
        }),
    decreases to - from,
{
    if to > from {
        lemma_type_value_matches_props(attributes, from, to - 1, ty, value);
        let prev = spec_type_value_matches(attributes, from, to - 1, ty, value);
        let m = spec_type_value_matches(attributes, from, to, ty, value);
        if spec_matches(attributes, to - 1, ty, value) {
            assert(m == prev.push(to - 1));
            assert forall|h: int| from <= h < to && #[trigger] spec_matches(attributes, h, ty, value) implies m.contains(h) by {
                if h == to - 1 {
                    assert(m[prev.len() as int] == h);
                } else {
                    let k = choose|k: int| 0 <= k < prev.len() && prev[k] == h;
                    assert(m[k] == h);
                }
            }
        }
    }
}

proof fn lemma_type_value_entries(attributes: Seq<AttributeView>, idx: Seq<int>, ty: u128)
    requires
        spec_short_u16(ty) is Some,
        forall|i: int| 0 <= i < idx.len() ==> 0 <= #[trigger] idx[i] < attributes.len() && attributes[idx[i]].ty == ty,
    ensures
        spec_type_value_entries(attributes, idx).len() == 4 * idx.len(),
        forall|i: int| 0 <= i < idx.len() ==> #[trigger] spec_type_value_entries(attributes, idx).subrange(4 * i, 4 * i + 2)
            == le_bytes(idx[i] as nat, 2),
        forall|i: int| 0 <= i < idx.len() ==> #[trigger] spec_type_value_entries(attributes, idx).subrange(4 * i + 2, 4 * i + 4)
            == le_bytes(spec_short_u16(ty).unwrap() as nat, 2),
    decreases idx.len(),
{
    if idx.len() > 0 {
        let prev_idx = idx.drop_last();
        lemma_type_value_entries(attributes, prev_idx, ty);
        let prev = spec_type_value_entries(attributes, prev_idx);
        let e = spec_type_value_entries(attributes, idx);
        lemma_le_bytes_len(idx.last() as nat, 2);
        lemma_le_bytes_len(spec_short_u16(ty).unwrap() as nat, 2);
        assert(attributes[idx.last()].ty == ty);
        assert forall|i: int| 0 <= i < idx.len() implies #[trigger] e.subrange(4 * i, 4 * i + 2) == le_bytes(idx[i] as nat, 2) by {
            if i < prev_idx.len() {
                assert(prev_idx[i] == idx[i]);
                assert(e.subrange(4 * i, 4 * i + 2) =~= prev.subrange(4 * i, 4 * i + 2));
            } else {
                assert(e.subrange(4 * i, 4 * i + 2) =~= le_bytes(idx.last() as nat, 2));
            }
        }
        assert forall|i: int| 0 <= i < idx.len() implies #[trigger] e.subrange(4 * i + 2, 4 * i + 4)
            == le_bytes(spec_short_u16(ty).unwrap() as nat, 2) by {
            if i < prev_idx.len() {
                assert(prev_idx[i] == idx[i]);
                assert(e.subrange(4 * i + 2, 4 * i + 4) =~= prev.subrange(4 * i + 2, 4 * i + 4));
            } else {
                assert(e.subrange(4 * i + 2, 4 * i + 4) =~= le_bytes(spec_short_u16(ty).unwrap() as nat, 2));
            }
        }
    }
}

/// A find by type value response lists the attributes of the requested range whose type and
/// value are the requested ones: each listed handle lies in the range and its attribute
/// matches, the handles increase, no match is skipped before the last listed one, and either
/// every match of the range is listed or the entries fill the space of the answer, the
/// smaller of four bytes for each attribute of the range and the MTU less the opcode. A
/// valid range that holds a match is answered with such a response.
pub proof fn lemma_find_by_type_value_lists_matches(attributes: Seq<AttributeView>, mtu: u16, raw: Seq<u8>)
    requires
        raw.len() >= 6,
        mtu >= 23,
        attributes.len() <= 0x1_0000,
    ensures
        ({
            let r = spec_find_by_type_value_response(attributes, mtu, raw);
            let sh = le_value(raw.subrange(0, 2)) as int;
            let eh = le_value(raw.subrange(2, 4)) as int;
            let ty = spec_uuid_of_short(le_value(raw.subrange(4, 6)) as int) as u128;
            let value = raw.skip(6);
            let n = (r.len() - 1) / 4;
            let cap = spec_min(4 * (spec_min(eh + 1, attributes.len() as int) - spec_min(sh, attributes.len() as int)), mtu - 1);
            &&& (0 < sh <= eh && exists|h: int| sh <= h <= eh && #[trigger] spec_matches(attributes, h, ty, value))
                ==> r[0] == 0x07
            &&& r[0] == 0x07 ==> {
                &&& r.len() >= 5
                &&& (r.len() - 1) % 4 == 0
                &&& forall|i: int| 0 <= i < n ==> sh <= #[trigger] spec_type_value_handle(r, i) <= eh
                    && spec_matches(attributes, spec_type_value_handle(r, i) as int, ty, value)
                    && r.subrange(3 + 4 * i, 5 + 4 * i) == raw.subrange(4, 6)
                &&& forall|i: int, j: int| 0 <= i < j < n ==> #[trigger] spec_type_value_handle(r, i) < #[trigger] spec_type_value_handle(r, j)
                &&& forall|h: int| sh <= h < spec_type_value_handle(r, n - 1) && #[trigger] spec_matches(attributes, h, ty, value)
                    ==> exists|i: int| 0 <= i < n && spec_type_value_handle(r, i) == h
                &&& (forall|h: int| sh <= h <= eh && #[trigger] spec_matches(attributes, h, ty, value)
                        ==> exists|i: int| 0 <= i < n && spec_type_value_handle(r, i) == h)
                    || (4 * n >= cap && 4 * (n - 1) < cap)
            }
        }),
{
    let r = spec_find_by_type_value_response(attributes, mtu, raw);
    let sh16 = le_value(raw.subrange(0, 2)) as u16;
    let eh16 = le_value(raw.subrange(2, 4)) as u16;
    let sh = le_value(raw.subrange(0, 2)) as int;
    let eh = le_value(raw.subrange(2, 4)) as int;
    let short = le_value(raw.subrange(4, 6));
    let ty = spec_uuid_of_short(short as int) as u128;
    let value = raw.skip(6);
    crate::att::le::lemma_le_value_bound(raw.subrange(0, 2));
    crate::att::le::lemma_le_value_bound(raw.subrange(2, 4));
    crate::att::le::lemma_le_value_bound(raw.subrange(4, 6));
    crate::att::le::lemma_pow256_values();
    assert(sh16 == sh && eh16 == eh);
    crate::uuid::lemma_uuid_u16_roundtrip(short as u16);
    assert(spec_short_u16(ty) is Some);
    if sh16 == 0 || sh16 > eh16 {
        assert(r[0] == 0x01);
    } else {
        let start = spec_min(sh, attributes.len() as int);
        let end = spec_min(eh + 1, attributes.len() as int);
        let cap = spec_min((end - start) * 4, mtu - 1);
        let found = spec_type_value_matches(attributes, start, end, ty, value);
        let limit = if cap <= 4 { 1 } else { (cap + 3) / 4 };
        let n = spec_min(found.len() as int, limit);
        lemma_type_value_matches_props(attributes, start, end, ty, value);
        if exists|h: int| sh <= h <= eh && #[trigger] spec_matches(attributes, h, ty, value) {
            let h = choose|h: int| sh <= h <= eh && #[trigger] spec_matches(attributes, h, ty, value);
            assert(found.contains(h));
        }
        if n > 0 {
            let listed = found.take(n);
            let e = spec_type_value_entries(attributes, listed);
            assert(r == seq![0x07u8] + e);
            lemma_type_value_entries(attributes, listed, ty);
            assert(((r.len() - 1) / 4) == n);
            crate::att::le::lemma_le_bytes_of_value(raw.subrange(4, 6));
            assert forall|i: int| 0 <= i < n implies #[trigger] spec_type_value_handle(r, i) == listed[i]
                && r.subrange(3 + 4 * i, 5 + 4 * i) == raw.subrange(4, 6) by {
                assert(r.subrange(1 + 4 * i, 3 + 4 * i) =~= e.subrange(4 * i, 4 * i + 2));
                assert(r.subrange(3 + 4 * i, 5 + 4 * i) =~= e.subrange(4 * i + 2, 4 * i + 4));
                crate::att::le::lemma_le_roundtrip(listed[i] as nat, 2);
            }
            assert forall|i: int, j: int| 0 <= i < j < n implies #[trigger] spec_type_value_handle(r, i) < #[trigger] spec_type_value_handle(r, j) by {
                assert(found[i] < found[j]);
            }
            assert forall|h: int| sh <= h < spec_type_value_handle(r, n - 1) && #[trigger] spec_matches(attributes, h, ty, value)
                implies exists|i: int| 0 <= i < n && spec_type_value_handle(r, i) == h by {
                assert(found.contains(h));
                let k = choose|k: int| 0 <= k < found.len() && found[k] == h;
                if k >= n {
                    assert(found[n - 1] < found[k]);
                }
                assert(spec_type_value_handle(r, k) == h);
            }
            if n == found.len() {
                assert forall|h: int| sh <= h <= eh && #[trigger] spec_matches(attributes, h, ty, value)
                    implies exists|i: int| 0 <= i < n && spec_type_value_handle(r, i) == h by {
                    assert(found.contains(h));
                    let k = choose|k: int| 0 <= k < found.len() && found[k] == h;
                    assert(spec_type_value_handle(r, k) == h);
                }
            }
        } else {
            assert(r[0] == 0x01);
        }
    }
}

/// Whether two byte slices are equal
pub fn bytes_equal(a: &[u8], b: &[u8]) -> (r: bool)
    ensures
        r == (a@ == b@),
{
    if a.len() != b.len() {
        return false;
    }
    let mut i: usize = 0;
    while i < a.len()
        invariant
            i <= a@.len(),
            a@.len() == b@.len(),
            forall|j: int| 0 <= j < i ==> a@[j] == b@[j],
        decreases a@.len() - i,
    {
        if a[i] != b[i] {
            return false;
        }
        i += 1;
    }
    assert(a@ =~= b@);
    true
}

/// The answer to a find by type value request
pub fn find_by_type_value_response_pdu(attributes: &[Attribute], mtu: u16, raw: &[u8]) -> (r: Vec<u8>)
    requires
        attributes@.len() <= 0x1_0000,
        mtu >= 23,
    ensures
        r@ == spec_find_by_type_value_response(spec_attribute_views(attributes@), mtu, raw@),
{
    let ghost views = spec_attribute_views(attributes@);
    if raw.len() < 6 {
        return error_pdu(0, 0, pdu::Error::InvalidPDU);
    }
    let sh = pdu::u16_of(vstd::slice::slice_subrange(raw, 0, 2));
    let eh = pdu::u16_of(vstd::slice::slice_subrange(raw, 2, 4));
    let att_type = UUID::from_u16(pdu::u16_of(vstd::slice::slice_subrange(raw, 4, 6)));
    let ty = att_type.into_u128();
    let raw_value = vstd::slice::slice_subrange(raw, 6, raw.len());
    assert(raw_value@ =~= raw@.skip(6));
    if sh == 0 {
        return error_pdu(0x06, 0, pdu::Error::InvalidHandle);
    }
    if sh > eh {
        return error_pdu(0x06, sh, pdu::Error::InvalidHandle);
    }
    let start = min_usize(sh as usize, attributes.len());
    let end = min_usize(eh as usize + 1, attributes.len());
    let cap = min_usize((end - start) * 4, (mtu as usize) - 1);
    let ghost limit: int = if cap <= 4 { 1 } else { (cap + 3) / 4 };
    let mut list: Vec<u8> = Vec::new();
    let mut count: usize = 0;
    let mut j: usize = start;
    loop
        invariant_except_break
            count == 0 || 4 * count < cap,
        invariant
            start <= j <= end <= attributes@.len() <= 0x1_0000,
            views == spec_attribute_views(attributes@),
            limit == (if cap <= 4 { 1 } else { (cap + 3) / 4 }),
            count == spec_type_value_matches(views, start as int, j as int, ty, raw_value@).len(),
            count <= j - start,
            list@ == spec_type_value_entries(views, spec_type_value_matches(views, start as int, j as int, ty, raw_value@)),
        ensures
            count == spec_min(spec_type_value_matches(views, start as int, end as int, ty, raw_value@).len() as int, limit),
            list@ == spec_type_value_entries(views, spec_type_value_matches(views, start as int, end as int, ty, raw_value@).take(count as int)),
        decreases end - j,
    {
        if j >= end {
            proof {
                let m = spec_type_value_matches(views, start as int, end as int, ty, raw_value@);
                assert(m.take(m.len() as int) =~= m);
            }
            break;
        }
        let attribute = &attributes[j];
        let ghost before = spec_type_value_matches(views, start as int, j as int, ty, raw_value@);
        if attribute.get_type().into_u128() == ty && bytes_equal(attribute.get_value_bytes().as_slice(), raw_value) {
            let ghost after = spec_type_value_matches(views, start as int, j + 1, ty, raw_value@);
            assert(after == before.push(j as int));
            list = concat(concat(list, u16_bytes(j as u16)), TransferFormat::into(&attribute.get_type()));
            proof {
                assert(after.drop_last() =~= before);
                assert(list@ =~= spec_type_value_entries(views, after));
            }
            count += 1;
            j += 1;
            if 4 * count >= cap {
                proof {
                    lemma_type_value_matches_prefix(views, start as int, j as int, end as int, ty, raw_value@);
                }
                break;
            }
        } else {
            j += 1;
        }
    }
    if count == 0 {
        error_pdu(0x06, sh, pdu::Error::AttributeNotFound)
    } else {
        let mut head: Vec<u8> = Vec::new();
        head.push(0x07u8);
        let r = concat(head, list);
        assert(r@ =~= spec_find_by_type_value_response(views, mtu, raw@));
        r
    }
}

/// The permissions that both the client and an attribute must have for the client to read it
pub open spec fn spec_read_required() -> Seq<AttributePermissions> {
    seq![AttributePermissions::Read]
}

/// The permissions that the client must have to read an attribute that has them
pub open spec fn spec_read_restricted() -> Seq<AttributePermissions> {
    seq![
        AttributePermissions::Encryption(AttributeRestriction::Read, EncryptionKeySize::Bits128),
        AttributePermissions::Encryption(AttributeRestriction::Read, EncryptionKeySize::Bits192),
        AttributePermissions::Encryption(AttributeRestriction::Read, EncryptionKeySize::Bits256),
        AttributePermissions::Authentication(AttributeRestriction::Read),
        AttributePermissions::Authorization(AttributeRestriction::Read),
    ]
}

/// The error that keeps the client with the permissions `given` from reading the attribute,
/// if any
pub open spec fn spec_read_permission_check(attribute: AttributeView, given: Seq<AttributePermissions>)
    -> Option<pdu::Error>
{
    spec_validate_permissions(attribute.permissions, given, spec_read_required(), spec_read_restricted())
}

/// The index of the first attribute of type `ty` from `from` up to `to`
pub open spec fn spec_first_of_type(attributes: Seq<AttributeView>, from: int, to: int, ty: u128) -> Option<int>
    decreases to - from,
{
    if from >= to {
        None
    } else if attributes[from].ty == ty {
        Some(from)
    } else {
        spec_first_of_type(attributes, from + 1, to, ty)
    }
}

/// The handle value pairs after the first one of a read by type response: the attributes of
/// type `ty` from `j` on, as long as each one can be read and its value fits in `remaining`
pub open spec fn spec_read_by_type_rest(attributes: Seq<AttributeView>, given: Seq<AttributePermissions>,
    j: int, end: int, ty: u128, remaining: int) -> Seq<u8>
    decreases end - j,
{
    if j >= end {
        Seq::empty()
    } else if attributes[j].ty != ty {
        spec_read_by_type_rest(attributes, given, j + 1, end, ty, remaining)
    } else if 2 + attributes[j].bytes.len() <= remaining && spec_read_permission_check(attributes[j], given) is None {
        le_bytes(j as nat, 2) + attributes[j].bytes
            + spec_read_by_type_rest(attributes, given, j + 1, end, ty, remaining - attributes[j].bytes.len())
    } else {
        Seq::empty()
    }
}

/// The PDUs that answer a read by type request for the attributes of type `ty` in `range`, its
/// ending handle included
///
/// A range that starts at 0 or ends before it starts is answered with an invalid handle
/// error, a range without an attribute of the type with an attribute not found error. Where
/// the client may not read the first attribute of the type, the answer is the error of the
/// offending permission followed by an attribute not found error. Otherwise the answer lists
/// the first attribute and the attributes of the type after it, as long as the client may read
/// them and they fit.
pub open spec fn spec_read_by_type_responses(attributes: Seq<AttributeView>, given: Seq<AttributePermissions>,
    mtu: u16, range: pdu::HandleRange, ty: u128) -> Seq<Seq<u8>>
{
    let sh = range.starting_handle;
    let eh = range.ending_handle;
    if sh == 0 {
        seq![spec_error_pdu(0x08, 0, pdu::Error::InvalidHandle)]
    } else if eh < sh {
        seq![spec_error_pdu(0x08, sh, pdu::Error::InvalidHandle)]
    } else {
        let start = spec_min(sh as int, attributes.len() as int);
        let end = spec_min(eh + 1, attributes.len() as int);
        let cap = spec_min(mtu as int, 256);
        match spec_first_of_type(attributes, start, end, ty) {
            None => seq![spec_error_pdu(0x08, sh, pdu::Error::AttributeNotFound)],
            Some(i) => match spec_read_permission_check(attributes[i], given) {
                Some(e) => seq![
                    spec_error_pdu(0x08, sh, e),
                    spec_error_pdu(0x08, sh, pdu::Error::AttributeNotFound),
                ],
                None => {
                    let value = attributes[i].bytes;
                    let length = spec_min(value.len() + 2int, cap - 2);
                    seq![seq![0x09u8, length as u8] + le_bytes(i as nat, 2) + value
                        + spec_read_by_type_rest(attributes, given, i + 1, end, ty, cap - 2 - length)]
                },
            },
        }
    }
}

/// The byte contents of byte vectors
pub open spec fn spec_byte_vecs(s: Seq<Vec<u8>>) -> Seq<Seq<u8>> {
    s.map_values(|v: Vec<u8>| v@)
}

/// The permissions that both the client and an attribute must have for the client to read it
fn read_required() -> (r: Vec<AttributePermissions>)
    ensures
        r@ == spec_read_required(),
{
    let mut r: Vec<AttributePermissions> = Vec::new();
    r.push(AttributePermissions::Read);
    assert(r@ =~= spec_read_required());
    r
}

/// The permissions that the client must have to read an attribute that has them
fn read_restricted() -> (r: Vec<AttributePermissions>)
    ensures
        r@ == spec_read_restricted(),
{
    let mut r: Vec<AttributePermissions> = Vec::new();
    r.push(AttributePermissions::Encryption(AttributeRestriction::Read, EncryptionKeySize::Bits128));
    r.push(AttributePermissions::Encryption(AttributeRestriction::Read, EncryptionKeySize::Bits192));
    r.push(AttributePermissions::Encryption(AttributeRestriction::Read, EncryptionKeySize::Bits256));
    r.push(AttributePermissions::Authentication(AttributeRestriction::Read));
    r.push(AttributePermissions::Authorization(AttributeRestriction::Read));
    assert(r@ =~= spec_read_restricted());
    r
}

/// The error that keeps the client from reading the attribute, if any
fn read_permission_check(attribute: &Attribute, given: &[AttributePermissions]) -> (r: Option<pdu::Error>)
    ensures
        r == spec_read_permission_check(attribute@, given@),
{
    let required = read_required();
    let restricted = read_restricted();
    validate_permissions(attribute.get_permissions(), given, required.as_slice(), restricted.as_slice())
}

/// A single PDU
pub(crate) fn one_pdu(pdu: Vec<u8>) -> (r: Vec<Vec<u8>>)
    ensures
        spec_byte_vecs(r@) == seq![pdu@],
{
    let mut r: Vec<Vec<u8>> = Vec::new();
    r.push(pdu);
    assert(spec_byte_vecs(r@) =~= seq![pdu@]);
    r
}

/// The PDUs that answer a read by type request
pub fn read_by_type_response_pdus(attributes: &[Attribute], given: &[AttributePermissions], mtu: u16,
    range: pdu::HandleRange, attr_type: UUID) -> (r: Vec<Vec<u8>>)
    requires
        attributes@.len() <= 0x1_0000,
        mtu >= 23,
    ensures
        spec_byte_vecs(r@) == spec_read_by_type_responses(spec_attribute_views(attributes@), given@, mtu, range, attr_type@),
{
    let ghost views = spec_attribute_views(attributes@);
    let ty = attr_type.into_u128();
    let sh = range.starting_handle;
    let eh = range.ending_handle;
    if sh == 0 {
        return one_pdu(error_pdu(0x08, 0, pdu::Error::InvalidHandle));
    }
    if eh < sh {
        return one_pdu(error_pdu(0x08, sh, pdu::Error::InvalidHandle));
    }
    let start = min_usize(sh as usize, attributes.len());
    let end = min_usize(eh as usize + 1, attributes.len());
    let cap = min_usize(mtu as usize, 256);
    let mut i: usize = start;
    loop
        invariant
            start <= i <= end <= attributes@.len() <= 0x1_0000,
            views == spec_attribute_views(attributes@),
            spec_first_of_type(views, start as int, end as int, ty) == spec_first_of_type(views, i as int, end as int, ty),
        ensures
            i < end ==> views[i as int].ty == ty,
        decreases end - i,
    {
        if i >= end {
            break;
        }
        if attributes[i].get_type().into_u128() == ty {
            break;
        }
        i += 1;
    }
    if i >= end {
        return one_pdu(error_pdu(0x08, sh, pdu::Error::AttributeNotFound));
    }
    let first = &attributes[i];
    match read_permission_check(first, given) {
        Some(e) => {
            let mut r: Vec<Vec<u8>> = Vec::new();
            r.push(error_pdu(0x08, sh, e));
            r.push(error_pdu(0x08, sh, pdu::Error::AttributeNotFound));
            assert(spec_byte_vecs(r@) =~= spec_read_by_type_responses(views, given@, mtu, range, attr_type@));
            r
        },
        None => {
            let value = first.get_value_bytes();
            let length = if value.len() <= cap - 4 { value.len() + 2 } else { cap - 2 };
            let mut head: Vec<u8> = Vec::new();
            head.push(0x09u8);
            head.push(length as u8);
            let mut response = concat(concat(head, u16_bytes(i as u16)), value);
            assert(response@ =~= seq![0x09u8, length as u8] + le_bytes(i as nat, 2) + views[i as int].bytes);
            let ghost total = response@ + spec_read_by_type_rest(views, given@, i + 1, end as int, ty, cap - 2 - length);
            let mut remaining: usize = cap - (2 + length);
            let mut j: usize = i + 1;
            loop
                invariant
                    i < j <= end <= attributes@.len() <= 0x1_0000,
                    views == spec_attribute_views(attributes@),
                    response@ + spec_read_by_type_rest(views, given@, j as int, end as int, ty, remaining as int) == total,
                ensures
                    response@ == total,
                decreases end - j,
            {
                if j >= end {
                    assert(response@ =~= response@ + Seq::<u8>::empty());
                    break;
                }
                let attribute = &attributes[j];
                if attribute.get_type().into_u128() == ty {
                    let transfer_value = attribute.get_value_bytes();
                    if remaining >= 2 && transfer_value.len() <= remaining - 2
                        && read_permission_check(attribute, given).is_none() {
                        let ghost old_response = response@;
                        let ghost old_remaining = remaining as int;
                        remaining -= transfer_value.len();
                        response = concat(concat(response, u16_bytes(j as u16)), transfer_value);
                        proof {
                            assert(old_response + spec_read_by_type_rest(views, given@, j as int, end as int, ty, old_remaining)
                                =~= response@ + spec_read_by_type_rest(views, given@, j + 1, end as int, ty, remaining as int));
                        }
                    } else {
                        assert(response@ =~= response@ + Seq::<u8>::empty());
                        break;
                    }
                }
                j += 1;
            }
            let r = one_pdu(response);
            assert(spec_first_of_type(views, start as int, end as int, ty) == Some(i as int));
            assert(spec_read_permission_check(views[i as int], given@) is None);
            assert(spec_read_by_type_responses(views, given@, mtu, range, attr_type@) == seq![total]);
            assert(spec_byte_vecs(r@) =~= spec_read_by_type_responses(views, given@, mtu, range, attr_type@));
            r
        },
    }
}

} // verus!
