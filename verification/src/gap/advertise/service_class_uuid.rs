//! Service Class UUID Data Type
//!
//! The struct `Services` is the data type for the list of service class UUIDs.
use vstd::prelude::*;
use super::{AssignedTypes, Error, IntoRaw, TryFromRaw, new_raw_type, set_len, spec_type_error};
use crate::att::le::{le_bytes, le_value, le_encode, le_decode, pow256};
use crate::att::pdu::concat;
use vstd::laws_cmp::obeys_cmp;
use vstd::std_specs::cmp::OrdSpec;
use vstd::std_specs::btree::{increasing_seq, spec_btree_keys_iter};
use vstd::std_specs::iter::IteratorSpec;
use std::collections::BTreeSet;

verus! {

/// The integers that hold service class UUIDs of 16, 32, or 128 bits
pub trait ServiceUuid: Copy + Sized + Ord {
    /// The number of bytes of the UUID
    spec fn spec_size() -> nat;

    /// The value of the UUID
    spec fn spec_val(&self) -> u128;

    /// The data type of a complete list of these UUIDs
    spec fn spec_complete_type() -> u8;

    /// The data type of an incomplete list of these UUIDs
    spec fn spec_incomplete_type() -> u8;

    /// The data type of service data with these UUIDs
    spec fn spec_service_data_type() -> u8;

    /// The value of the UUID
    fn val(&self) -> (r: u128)
        ensures
            r == self.spec_val(),
            r < pow256(Self::spec_size());

    /// The number of bytes of the UUID
    fn size() -> (r: usize)
        ensures
            r == Self::spec_size(),
            1 <= r <= 16;

    /// The data type of a complete list of these UUIDs
    fn complete_type() -> (r: u8)
        ensures
            r == Self::spec_complete_type();

    /// The data type of an incomplete list of these UUIDs
    fn incomplete_type() -> (r: u8)
        ensures
            r == Self::spec_incomplete_type(),
            r != Self::spec_complete_type();

    /// The data type of service data with these UUIDs
    fn service_data_type() -> (r: u8)
        ensures
            r == Self::spec_service_data_type();

    /// The UUID of little endian bytes
    fn from_le(raw: &[u8]) -> (r: Self)
        requires
            raw@.len() == Self::spec_size(),
        ensures
            r.spec_val() == le_value(raw@);

    /// UUIDs of equal value are equal
    proof fn lemma_val_injective(a: Self, b: Self)
        ensures
            a.spec_val() == b.spec_val() ==> a == b;

    /// The value of a UUID fits in its size
    proof fn lemma_val_bound(a: Self)
        ensures
            a.spec_val() < pow256(Self::spec_size());

    /// A UUID has from 1 to 16 bytes
    proof fn lemma_size()
        ensures
            1 <= Self::spec_size() <= 16;

    /// The types of a complete and of an incomplete list differ
    proof fn lemma_list_types_differ()
        ensures
            Self::spec_complete_type() != Self::spec_incomplete_type();

    /// UUIDs are ordered by their values
    proof fn lemma_order(a: Self, b: Self)
        ensures
            obeys_cmp::<Self>(),
            (a.cmp_spec(&b) is Less) <==> a.spec_val() < b.spec_val();
}

impl ServiceUuid for u16 {
    open spec fn spec_size() -> nat { 2 }
    open spec fn spec_val(&self) -> u128 { *self as u128 }
    open spec fn spec_complete_type() -> u8 { 0x03 }
    open spec fn spec_incomplete_type() -> u8 { 0x02 }
    open spec fn spec_service_data_type() -> u8 { 0x16 }

    fn val(&self) -> (r: u128) {
        proof { crate::att::le::lemma_pow256_values(); }
        *self as u128
    }

    fn size() -> (r: usize) { 2 }

    fn complete_type() -> (r: u8) { AssignedTypes::CompleteListOf16bitServiceClassUUIDs.val() }

    fn incomplete_type() -> (r: u8) { AssignedTypes::IncompleteListOf16bitServiceClassUUIDs.val() }

    fn service_data_type() -> (r: u8) { AssignedTypes::ServiceData16BitUUID.val() }

    fn from_le(raw: &[u8]) -> (r: u16) {
        proof {
            crate::att::le::lemma_le_value_bound(raw@);
            crate::att::le::lemma_pow256_values();
        }
        le_decode(raw) as u16
    }

    proof fn lemma_val_injective(a: u16, b: u16) {}

    proof fn lemma_val_bound(a: u16) { crate::att::le::lemma_pow256_values(); }

    proof fn lemma_size() {}

    proof fn lemma_list_types_differ() {}

    proof fn lemma_order(a: Self, b: Self) {}
}

impl ServiceUuid for u32 {
    open spec fn spec_size() -> nat { 4 }
    open spec fn spec_val(&self) -> u128 { *self as u128 }
    open spec fn spec_complete_type() -> u8 { 0x05 }
    open spec fn spec_incomplete_type() -> u8 { 0x04 }
    open spec fn spec_service_data_type() -> u8 { 0x20 }

    fn val(&self) -> (r: u128) {
        proof { crate::att::le::lemma_pow256_values(); }
        *self as u128
    }

    fn size() -> (r: usize) { 4 }

    fn complete_type() -> (r: u8) { AssignedTypes::CompleteListOf32bitServiceClassUUIDs.val() }

    fn incomplete_type() -> (r: u8) { AssignedTypes::IncompleteListOf32bitServiceClassUUIDs.val() }

    fn service_data_type() -> (r: u8) { AssignedTypes::ServiceData32BitUUID.val() }

    fn from_le(raw: &[u8]) -> (r: u32) {
        proof {
            crate::att::le::lemma_le_value_bound(raw@);
            crate::att::le::lemma_pow256_values();
        }
        le_decode(raw) as u32
    }

    proof fn lemma_val_injective(a: u32, b: u32) {}

    proof fn lemma_val_bound(a: u32) { crate::att::le::lemma_pow256_values(); }

    proof fn lemma_size() {}

    proof fn lemma_list_types_differ() {}

    proof fn lemma_order(a: Self, b: Self) {}
}

impl ServiceUuid for u128 {
    open spec fn spec_size() -> nat { 16 }
    open spec fn spec_val(&self) -> u128 { *self }
    open spec fn spec_complete_type() -> u8 { 0x07 }
    open spec fn spec_incomplete_type() -> u8 { 0x06 }
    open spec fn spec_service_data_type() -> u8 { 0x21 }

    fn val(&self) -> (r: u128) {
        proof { crate::att::le::lemma_pow256_values(); }
        *self
    }

    fn size() -> (r: usize) { 16 }

    fn complete_type() -> (r: u8) { AssignedTypes::CompleteListOf128bitServiceClassUUIDs.val() }

    fn incomplete_type() -> (r: u8) { AssignedTypes::IncompleteListOf128bitServiceClassUUIDs.val() }

    fn service_data_type() -> (r: u8) { AssignedTypes::ServiceData128BitUUID.val() }

    fn from_le(raw: &[u8]) -> (r: u128) {
        le_decode(raw)
    }

    proof fn lemma_val_injective(a: u128, b: u128) {}

    proof fn lemma_val_bound(a: u128) { crate::att::le::lemma_pow256_values(); }

    proof fn lemma_size() {}

    proof fn lemma_list_types_differ() {}

    proof fn lemma_order(a: Self, b: Self) {}
}

/// Whether the values of `s` are strictly increasing
pub open spec fn spec_increasing_uuids<T: ServiceUuid>(s: Seq<T>) -> bool {
    forall|i: int, j: int| 0 <= i < j < s.len() ==> (#[trigger] s[i]).spec_val() < (#[trigger] s[j]).spec_val()
}

/// The UUIDs of `s` in increasing order
pub open spec fn spec_sorted<T: ServiceUuid>(s: Set<T>) -> Seq<T> {
    choose|q: Seq<T>| q.to_set() == s && spec_increasing_uuids(q)
}

/// Service UUIDs
///
/// A set of service UUIDs of 16, 32, or 128 bits that is either a complete or an incomplete
/// list. `Services` is a set of uuids, so duplicate uuids cannot exist within an instance of
/// `Services`; its raw form lists them in increasing order.
pub struct Services<T: ServiceUuid> {
    set: BTreeSet<T>,
    complete: bool,
}

impl<T: ServiceUuid> View for Services<T> {
    /// The set of UUIDs and whether the list is complete
    type V = (Set<T>, bool);

    closed spec fn view(&self) -> (Set<T>, bool) {
        (self.set@, self.complete)
    }
}

/// Increasing sequences of UUIDs that hold the same UUIDs are equal
proof fn lemma_sorted_unique<T: ServiceUuid>(a: Seq<T>, b: Seq<T>)
    requires
        spec_increasing_uuids(a),
        spec_increasing_uuids(b),
        a.to_set() == b.to_set(),
    ensures
        a == b,
    decreases a.len(),
{
    if a.len() == 0 {
        if b.len() > 0 {
            assert(b.to_set().contains(b[0]));
        }
        assert(b.len() == 0);
        assert(a =~= b);
    } else {
        assert(a.to_set().contains(a[0]));
        assert(b.contains(a[0]));
        let j = choose|j: int| 0 <= j < b.len() && b[j] == a[0];
        assert(b.to_set().contains(b[0]));
        assert(a.contains(b[0]));
        let i = choose|i: int| 0 <= i < a.len() && a[i] == b[0];
        if j > 0 {
            assert(b[0].spec_val() < b[j].spec_val());
            if i > 0 {
                assert(a[0].spec_val() < a[i].spec_val());
            }
            assert(false);
        }
        assert(a[0] == b[0]);
        let a1 = a.drop_first();
        let b1 = b.drop_first();
        assert forall|x: T| a1.to_set().contains(x) <==> b1.to_set().contains(x) by {
            if a1.contains(x) {
                let k = choose|k: int| 0 <= k < a1.len() && a1[k] == x;
                assert(a[k + 1] == x);
                assert(a[0].spec_val() < a[k + 1].spec_val());
                assert(b.to_set().contains(x));
                assert(b.contains(x));
                let m = choose|m: int| 0 <= m < b.len() && b[m] == x;
                assert(m != 0);
                assert(b1[m - 1] == x);
            }
            if b1.contains(x) {
                let k = choose|k: int| 0 <= k < b1.len() && b1[k] == x;
                assert(b[k + 1] == x);
                assert(b[0].spec_val() < b[k + 1].spec_val());
                assert(a.to_set().contains(x));
                assert(a.contains(x));
                let m = choose|m: int| 0 <= m < a.len() && a[m] == x;
                assert(m != 0);
                assert(a1[m - 1] == x);
            }
        }
        assert(a1.to_set() =~= b1.to_set());
        lemma_sorted_unique(a1, b1);
        assert(a =~= b1.insert(0, b[0]));
        assert(b =~= b1.insert(0, b[0]));
    }
}

/// The UUIDs of a set are listed in increasing order by the set's iterator, once each
proof fn lemma_set_order<T: ServiceUuid>(set: &BTreeSet<T>)
    ensures
        spec_sorted(set@).to_set() == set@,
        spec_increasing_uuids(spec_sorted(set@)),
        spec_btree_keys_iter(set).remaining().unref() == spec_sorted(set@),
        spec_sorted(set@).len() == set@.len(),
        set@.finite(),
{
    let it = spec_btree_keys_iter(set).remaining();
    let q = it.unref();
    T::lemma_order(arbitrary(), arbitrary());
    assert(obeys_cmp::<&T>());
    assert(increasing_seq(it));
    assert forall|i: int, j: int| 0 <= i < j < q.len() implies (#[trigger] q[i]).spec_val() < (#[trigger] q[j]).spec_val() by {
        assert(OrdSpec::cmp_spec(&it[i], &it[j]) is Less);
        T::lemma_order(*it[i], *it[j]);
    }
    assert(q.to_set() == set@ && spec_increasing_uuids(q));
    lemma_sorted_unique(q, spec_sorted(set@));
    assert(q.no_duplicates()) by {
        assert forall|i: int, j: int| 0 <= i < q.len() && 0 <= j < q.len() && i != j implies q[i] != q[j] by {
            if i < j { assert(q[i].spec_val() < q[j].spec_val()); } else { assert(q[j].spec_val() < q[i].spec_val()); }
        }
    }
    q.unique_seq_to_set();
}

/// Create a Services data type for 16-bit UUIDs
///
/// This takes one input to indicate if the service list is to be a complete or incomplete
/// list of service ids.
pub fn new_16(complete: bool) -> (r: Services<u16>)
    ensures
        r@ == (Set::<u16>::empty(), complete),
{
    Services::new(complete)
}

/// Create a Services data type for 32-bit UUIDs
pub fn new_32(complete: bool) -> (r: Services<u32>)
    ensures
        r@ == (Set::<u32>::empty(), complete),
{
    Services::new(complete)
}

/// Create a Services data type for 128-bit UUIDs
pub fn new_128(complete: bool) -> (r: Services<u128>)
    ensures
        r@ == (Set::<u128>::empty(), complete),
{
    Services::new(complete)
}

impl<T: ServiceUuid> Services<T> {
    fn new(complete: bool) -> (r: Services<T>)
        ensures
            r@ == (Set::<T>::empty(), complete),
    {
        Services { set: BTreeSet::new(), complete }
    }

    /// A complete list of the given UUIDs
    ///
    /// Each UUID is inserted in turn; a UUID given twice is listed once.
    pub fn from_uuids(uuids: &[T]) -> (r: Services<T>)
        ensures
            r@ == (uuids@.to_set(), true),
    {
        let mut services = Services::new(true);
        let mut i: usize = 0;
        while i < uuids.len()
            invariant
                i <= uuids@.len(),
                services@ == (uuids@.subrange(0, i as int).to_set(), true),
            decreases uuids@.len() - i,
        {
            services.insert(uuids[i]);
            proof {
                assert(uuids@.subrange(0, i + 1) =~= uuids@.subrange(0, i as int).push(uuids@[i as int]));
                uuids@.subrange(0, i as int).lemma_push_to_set_commute(uuids@[i as int]);
            }
            i += 1;
        }
        proof {
            assert(uuids@.subrange(0, uuids@.len() as int) =~= uuids@);
        }
        services
    }

    /// Whether the list holds no UUID
    pub fn is_empty(&self) -> (r: bool)
        ensures
            r == (self@.0 == Set::<T>::empty()),
    {
        self.set.is_empty()
    }

    /// Whether the list is complete
    pub fn is_complete(&self) -> (r: bool)
        ensures
            r == self@.1,
    {
        self.complete
    }

    /// The set of the UUIDs
    pub fn as_ref(&self) -> (r: &BTreeSet<T>)
        ensures
            r@ == self@.0,
    {
        &self.set
    }

    /// The UUIDs, in increasing order
    pub fn uuids(&self) -> (r: Vec<T>)
        ensures
            r@ == spec_sorted(self@.0),
            r@.to_set() == self@.0,
            spec_increasing_uuids(r@),
    {
        proof {
            lemma_set_order(&self.set);
            T::lemma_order(arbitrary(), arbitrary());
        }
        let mut r: Vec<T> = Vec::new();
        for u in it: self.set.iter()
            invariant
                it.seq().unref() == spec_sorted(self@.0),
                r@ == spec_sorted(self@.0).subrange(0, it.index() as int),
        {
            r.push(*u);
            proof { assert(r@ =~= spec_sorted(self@.0).subrange(0, it.index() + 1)); }
        }
        proof { assert(r@ =~= spec_sorted(self@.0)); }
        r
    }

    /// Add a uuid to the list of uuids
    ///
    /// Returns true if the uuid is added, otherwise returns false if the uuid is already in
    /// the set.
    pub fn insert(&mut self, uuid: T) -> (r: bool)
        ensures
            r == !old(self)@.0.contains(uuid),
            final(self)@ == (old(self)@.0.insert(uuid), old(self)@.1),
    {
        proof { T::lemma_order(uuid, uuid); }
        self.set.insert(uuid)
    }
}

/// The little endian bytes of each UUID of `s`, one after the other
pub open spec fn spec_uuid_bytes<T: ServiceUuid>(s: Seq<T>) -> Seq<u8>
    decreases s.len(),
{
    if s.len() == 0 {
        Seq::empty()
    } else {
        spec_uuid_bytes(s.drop_last()) + le_bytes(s.last().spec_val() as nat, T::spec_size())
    }
}

/// The bytes of the UUIDs are as many as the UUIDs times their size
proof fn lemma_uuid_bytes_len<T: ServiceUuid>(s: Seq<T>)
    ensures
        spec_uuid_bytes(s).len() == s.len() * T::spec_size(),
    decreases s.len(),
{
    if s.len() > 0 {
        lemma_uuid_bytes_len(s.drop_last());
        crate::att::le::lemma_le_bytes_len(s.last().spec_val() as nat, T::spec_size());
        assert((s.len() - 1) * T::spec_size() + T::spec_size() == s.len() * T::spec_size()) by (nonlinear_arith);
    }
}

impl<T: ServiceUuid> IntoRaw for Services<T> {
    open spec fn spec_fits_raw(&self) -> bool {
        (2 + self@.0.len() * T::spec_size()) % 256 != 0
    }

    open spec fn spec_into_raw(&self) -> Seq<u8> {
        let data = spec_uuid_bytes(spec_sorted(self@.0));
        let ty = if self@.0 == Set::<T>::empty() || self@.1 { T::spec_complete_type() } else { T::spec_incomplete_type() };
        seq![((data.len() + 2) % 256 - 1) as u8, ty] + data
    }

    fn into_raw(&self) -> (r: Vec<u8>) {
        let data_type = if self.is_empty() || self.complete { T::complete_type() } else { T::incomplete_type() };
        let mut raw = new_raw_type(data_type);
        let ghost head = raw@;
        let ghost q = spec_sorted(self@.0);
        let size = T::size();
        proof {
            lemma_set_order(&self.set);
            T::lemma_order(arbitrary(), arbitrary());
        }
        for u in it: self.set.iter()
            invariant
                it.seq().unref() == q,
                size == T::spec_size(),
                raw@ == head + spec_uuid_bytes(q.subrange(0, it.index() as int)),
        {
            proof { assert(q.subrange(0, it.index() + 1).drop_last() =~= q.subrange(0, it.index() as int)); }
            raw = concat(raw, le_encode(u.val(), size));
            assert(raw@ =~= head + spec_uuid_bytes(q.subrange(0, it.index() + 1)));
        }
        proof {
            assert(q.subrange(0, q.len() as int) =~= q);
            lemma_uuid_bytes_len(q);
        }
        set_len(&mut raw);
        assert(raw@ =~= self.spec_into_raw());
        raw
    }
}

/// The UUIDs that the raw data `raw` (type first) lists: the value of each whole chunk of
/// `size` bytes after the type; bytes after the last whole chunk are ignored
pub open spec fn spec_raw_uuid(raw: Seq<u8>, size: nat, k: int) -> u128 {
    le_value(raw.subrange(1 + k * size, 1 + (k + 1) * size)) as u128
}

/// The number of whole chunks of `size` bytes after the type
pub open spec fn spec_raw_uuid_count(raw: Seq<u8>, size: nat) -> int {
    (raw.len() - 1) / (size as int)
}

impl<T: ServiceUuid> TryFromRaw for Services<T> {
    open spec fn spec_from_raw(raw: Seq<u8>, r: Result<Services<T>, Error>) -> bool {
        &&& (raw.len() == 0 || (raw[0] != T::spec_complete_type() && raw[0] != T::spec_incomplete_type())
            ==> r == Err::<Services<T>, Error>(spec_type_error(raw)))
        &&& (raw.len() > 0 && (raw[0] == T::spec_complete_type() || raw[0] == T::spec_incomplete_type()) ==> (r matches Ok(s) && {
            &&& s@.1 == (raw[0] == T::spec_complete_type())
            &&& forall|x: T| s@.0.contains(x) <==> exists|k: int| 0 <= k < spec_raw_uuid_count(raw, T::spec_size())
                && x.spec_val() == spec_raw_uuid(raw, T::spec_size(), k)
        }))
    }

    fn try_from_raw(raw: &[u8]) -> (r: Result<Services<T>, Error>) {
        if raw.len() == 0 {
            return Err(Error::RawTooSmall);
        }
        let complete_type = T::complete_type();
        if raw[0] != complete_type && raw[0] != T::incomplete_type() {
            return Err(Error::IncorrectDataType);
        }
        let size = T::size();
        let count = (raw.len() - 1) / size;
        let mut services: Services<T> = Services::new(raw[0] == complete_type);
        let mut k: usize = 0;
        while k < count
            invariant
                size == T::spec_size(),
                1 <= size <= 16,
                raw@.len() >= 1,
                raw@.len() <= usize::MAX,
                count == spec_raw_uuid_count(raw@, T::spec_size()),
                k <= count,
                services@.1 == (raw@[0] == T::spec_complete_type()),
                forall|x: T| services@.0.contains(x) <==> exists|j: int| 0 <= j < k
                && x.spec_val() == spec_raw_uuid(raw@, T::spec_size(), j),
            decreases count - k,
        {
            proof {
                assert(k * size + size <= count * size) by (nonlinear_arith)
                    requires k < count;
                assert(count * size <= raw@.len() - 1) by (nonlinear_arith)
                    requires count == (raw@.len() - 1) / (size as int), size >= 1;
            }
            let start = 1 + k * size;
            let chunk = vstd::slice::slice_subrange(raw, start, start + size);
            let uuid = T::from_le(chunk);
            services.insert(uuid);
            proof {
                assert((k + 1) * size == k * size + size) by (nonlinear_arith);
                assert forall|x: T| services@.0.contains(x) <==> exists|j: int| 0 <= j < k + 1
                && x.spec_val() == spec_raw_uuid(raw@, T::spec_size(), j) by {
                    if x == uuid {
                        assert(x.spec_val() == spec_raw_uuid(raw@, T::spec_size(), k as int));
                    }
                    if exists|j: int| 0 <= j < k + 1 && x.spec_val() == spec_raw_uuid(raw@, T::spec_size(), j) {
                        let j = choose|j: int| 0 <= j < k + 1 && x.spec_val() == spec_raw_uuid(raw@, T::spec_size(), j);
                        if j == k {
                            T::lemma_val_injective(x, uuid);
                        }
                    }
                }
            }
            k += 1;
        }
        Ok(services)
    }
}

/// Each chunk of the bytes of the UUIDs is the bytes of one UUID
proof fn lemma_uuid_bytes_chunk<T: ServiceUuid>(s: Seq<T>, k: int)
    requires
        0 <= k < s.len(),
    ensures
        spec_uuid_bytes(s).subrange(k * T::spec_size(), (k + 1) * T::spec_size())
            == le_bytes(s[k].spec_val() as nat, T::spec_size()),
    decreases s.len(),
{
    let size = T::spec_size() as int;
    T::lemma_size();
    let prefix = spec_uuid_bytes(s.drop_last());
    lemma_uuid_bytes_len(s.drop_last());
    crate::att::le::lemma_le_bytes_len(s.last().spec_val() as nat, T::spec_size());
    assert((s.len() - 1) * size + size == s.len() * size) by (nonlinear_arith);
    assert((k + 1) * size == k * size + size) by (nonlinear_arith);
    if k == s.len() - 1 {
        assert(spec_uuid_bytes(s).subrange(k * size, (k + 1) * size)
            =~= le_bytes(s.last().spec_val() as nat, T::spec_size()));
    } else {
        lemma_uuid_bytes_chunk(s.drop_last(), k);
        assert(k * size + size <= (s.len() - 1) * size) by (nonlinear_arith)
            requires k + 1 <= s.len() - 1, size >= 1;
        assert(spec_uuid_bytes(s).subrange(k * size, (k + 1) * size)
            =~= prefix.subrange(k * size, (k + 1) * size));
    }
}

/// Services are read back from their raw form: without the length byte, it starts with the
/// type of a complete list where the list is complete or empty, and each whole chunk after it
/// is a UUID of the list, in increasing order.
pub proof fn lemma_services_roundtrip<T: ServiceUuid>(s: Services<T>)
    ensures
        s.spec_into_raw().skip(1).len() >= 1,
        s.spec_into_raw().skip(1)[0] == if s@.0 == Set::<T>::empty() || s@.1 { T::spec_complete_type() } else { T::spec_incomplete_type() },
        spec_raw_uuid_count(s.spec_into_raw().skip(1), T::spec_size()) == spec_sorted(s@.0).len(),
        forall|k: int| 0 <= k < spec_sorted(s@.0).len()
            ==> spec_raw_uuid(s.spec_into_raw().skip(1), T::spec_size(), k) == (#[trigger] spec_sorted(s@.0)[k]).spec_val(),
        forall|r: Result<Services<T>, Error>| #[trigger] Services::<T>::spec_from_raw(s.spec_into_raw().skip(1), r)
            ==> (r matches Ok(x) && x@.1 == (s@.0 == Set::<T>::empty() || s@.1) && x@.0 == s@.0),
{
    let q = spec_sorted(s@.0);
    lemma_set_order(&s.set);
    assert(q.to_set() == s@.0);
    let raw = s.spec_into_raw().skip(1);
    let size = T::spec_size() as int;
    let bytes = spec_uuid_bytes(q);
    lemma_uuid_bytes_len(q);
    T::lemma_size();
    assert(raw.skip(1) =~= bytes);
    assert((bytes.len() as int) / size == q.len()) by (nonlinear_arith)
        requires bytes.len() == q.len() * size, size >= 1;
    assert forall|k: int| 0 <= k < q.len()
        implies spec_raw_uuid(raw, T::spec_size(), k) == (#[trigger] q[k]).spec_val() by {
        lemma_uuid_bytes_chunk(q, k);
        T::lemma_val_bound(q[k]);
        crate::att::le::lemma_le_roundtrip(q[k].spec_val() as nat, T::spec_size());
        assert(k * size + size <= q.len() * size) by (nonlinear_arith)
            requires k + 1 <= q.len(), size >= 1;
        assert((k + 1) * size == k * size + size) by (nonlinear_arith);
        assert(raw.subrange(1 + k * size, 1 + (k + 1) * size) =~= bytes.subrange(k * size, (k + 1) * size));
    }
    T::lemma_list_types_differ();
    assert(raw.len() >= 1);
    assert(raw[0] == T::spec_complete_type() || raw[0] == T::spec_incomplete_type());
    assert forall|r: Result<Services<T>, Error>| #[trigger] Services::<T>::spec_from_raw(raw, r)
        implies (r matches Ok(x) && x@.1 == (s@.0 == Set::<T>::empty() || s@.1) && x@.0 == s@.0) by {
        let x = r->Ok_0;
        assert forall|u: T| x@.0.contains(u) <==> s@.0.contains(u) by {
            if x@.0.contains(u) {
                let k = choose|k: int| 0 <= k < spec_raw_uuid_count(raw, T::spec_size())
                    && u.spec_val() == spec_raw_uuid(raw, T::spec_size(), k);
                assert(spec_raw_uuid(raw, T::spec_size(), k) == q[k].spec_val());
                T::lemma_val_injective(u, q[k]);
                assert(q.contains(u));
            }
            if s@.0.contains(u) {
                assert(q.contains(u));
                let k = choose|k: int| 0 <= k < q.len() && q[k] == u;
                assert(spec_raw_uuid(raw, T::spec_size(), k) == q[k].spec_val());
            }
        }
        assert(x@.0 =~= s@.0);
    }
}

} // verus!
