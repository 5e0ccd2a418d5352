//! The flags data type
//!
//! Flags are bits of the flags data type: the first eight positions are the core flags (and
//! reserved ones), the positions after them are the user flags.
use vstd::prelude::*;
use super::{AssignedTypes, Error, IntoRaw, TryFromRaw, new_raw_type, set_len, spec_assigned_type_val, spec_type_error};
use std::collections::BTreeMap;
use vstd::std_specs::btree::increasing_seq;
use vstd::std_specs::cmp::OrdSpec;
use vstd::std_specs::iter::IteratorSpec;

verus! {

/// The flags of the Bluetooth Supplement specification
#[derive(Clone, Copy, Debug, PartialEq, Eq, Structural)]
pub enum CoreFlags {
    /// LE limited discoverable mode
    LELimitedDiscoverableMode,
    /// LE general discoverable mode
    LEGeneralDiscoverableMode,
    /// BR/EDR not supported
    BREDRNotSupported,
    /// The controller supports simultaneous BR/EDR and LE to the same device
    ControllerSupportsSimultaniousLEAndBREDR,
    /// The host supports simultaneous BR/EDR and LE to the same device.
    HostSupportsSimultaniousLEAndBREDR,
}

/// The position of a core flag
pub open spec fn spec_core_position(core: CoreFlags) -> usize {
    match core {
        CoreFlags::LELimitedDiscoverableMode => 0,
        CoreFlags::LEGeneralDiscoverableMode => 1,
        CoreFlags::BREDRNotSupported => 2,
        CoreFlags::ControllerSupportsSimultaniousLEAndBREDR => 3,
        CoreFlags::HostSupportsSimultaniousLEAndBREDR => 4,
    }
}

/// The number of bits of the core flags and the reserved flags
pub const CORE_BIT_COUNT: usize = 8;

impl CoreFlags {
    /// The number of bits that are required for the core flags and reserved flags
    pub fn get_bit_cnt() -> (r: usize)
        ensures
            r == CORE_BIT_COUNT,
    {
        CORE_BIT_COUNT
    }

    /// The position of the flag
    pub fn get_position(&self) -> (r: usize)
        ensures
            r == spec_core_position(*self),
    {
        match *self {
            CoreFlags::LELimitedDiscoverableMode => 0,
            CoreFlags::LEGeneralDiscoverableMode => 1,
            CoreFlags::BREDRNotSupported => 2,
            CoreFlags::ControllerSupportsSimultaniousLEAndBREDR => 3,
            CoreFlags::HostSupportsSimultaniousLEAndBREDR => 4,
        }
    }

    /// The core flag at a position; the positions from 5 to 7 are reserved
    pub fn from_position(raw: usize) -> (r: CoreFlags)
        requires
            raw < 5,
        ensures
            spec_core_position(r) == raw,
    {
        match raw {
            0 => CoreFlags::LELimitedDiscoverableMode,
            1 => CoreFlags::LEGeneralDiscoverableMode,
            2 => CoreFlags::BREDRNotSupported,
            3 => CoreFlags::ControllerSupportsSimultaniousLEAndBREDR,
            _ => CoreFlags::HostSupportsSimultaniousLEAndBREDR,
        }
    }
}

/// The kind of a flag: a core flag, or a user flag with its position among the user flags
#[derive(Clone, Copy, Debug, PartialEq, Eq, Structural)]
pub enum FlagType {
    Core(CoreFlags),
    User(usize),
}

/// A flag in the `Flags` structure
///
/// A flag names a position in a `Flags`; its state is the one that the `Flags` holds at that
/// position, so every flag taken for a position reads and changes the same state. `enable`,
/// `disable`, or `set` change that state. A flag taken from a `Flags` is false unless it was
/// set before. The highest position *enabled* flag determines the actual length of the data
/// for the resulting transmission of Flags data.
#[derive(Clone, Copy, Debug, PartialEq, Eq, Structural)]
pub struct Flag {
    position: usize,
}

impl View for Flag {
    /// The position
    type V = usize;

    closed spec fn view(&self) -> usize {
        self.position
    }
}

impl Flag {
    /// Set the state of the flag to enabled
    pub fn enable(&self, flags: &mut Flags)
        ensures
            final(flags)@ == old(flags)@.insert(self@, true),
    {
        flags.set_state(self.position, true);
    }

    /// Set the state of the flag to disabled
    pub fn disable(&self, flags: &mut Flags)
        ensures
            final(flags)@ == old(flags)@.insert(self@, false),
    {
        flags.set_state(self.position, false);
    }

    /// Set the state of the flag to `state`
    pub fn set(&self, flags: &mut Flags, state: bool)
        ensures
            final(flags)@ == old(flags)@.insert(self@, state),
    {
        flags.set_state(self.position, state);
    }

    /// The state of the flag in `flags`
    pub fn get(&self, flags: &Flags) -> (r: bool)
        ensures
            r == spec_flag_state(flags@, self@),
    {
        flags.enabled_at(self.position)
    }

    /// The kind of the flag; the reserved positions from 5 to 7 have none
    pub fn pos(&self) -> (r: FlagType)
        requires
            !(5 <= self@ < CORE_BIT_COUNT),
        ensures
            self@ < CORE_BIT_COUNT ==> (r matches FlagType::Core(c) && spec_core_position(c) == self@),
            self@ >= CORE_BIT_COUNT ==> r == FlagType::User((self@ - CORE_BIT_COUNT) as usize),
    {
        if self.position < CoreFlags::get_bit_cnt() {
            FlagType::Core(CoreFlags::from_position(self.position))
        } else {
            FlagType::User(self.position - CoreFlags::get_bit_cnt())
        }
    }
}

/// The state that `flags` holds for the flag at position `p`: false where it holds none
pub open spec fn spec_flag_state(flags: Map<usize, bool>, p: usize) -> bool {
    flags.contains_key(p) && flags[p]
}

/// Flags taken for one position share their state: after `f.set(flags, state)` (or `enable`,
/// `disable`), every flag at the position of `f` reads `state`, and every other flag reads
/// what it read before.
pub proof fn lemma_flag_state_shared(f: Flag, g: Flag, before: Map<usize, bool>, state: bool)
    ensures
        f@ == g@ ==> spec_flag_state(before.insert(f@, state), g@) == state,
        f@ != g@ ==> spec_flag_state(before.insert(f@, state), g@) == spec_flag_state(before, g@),
{
}

/// The flags data type
pub struct Flags {
    set: BTreeMap<usize, bool>,
}

impl View for Flags {
    /// The state of each flag, by position
    type V = Map<usize, bool>;

    closed spec fn view(&self) -> Map<usize, bool> {
        self.set@
    }
}

impl Flags {
    /// Creates a flags object with no flag
    pub fn new() -> (r: Flags)
        ensures
            r@ == Map::<usize, bool>::empty(),
    {
        Flags { set: BTreeMap::new() }
    }

    /// Set the state of the flag at `position`, adding it where there is none
    fn set_state(&mut self, position: usize, state: bool)
        ensures
            final(self)@ == old(self)@.insert(position, state),
    {
        self.set.insert(position, state);
    }

    /// The flag at `position`, added disabled where there is none
    fn get(&mut self, position: usize) -> (r: Flag)
        ensures
            r@ == position,
            final(self)@ == if old(self)@.contains_key(position) { old(self)@ } else { old(self)@.insert(position, false) },
    {
        if !self.set.contains_key(&position) {
            self.set.insert(position, false);
        }
        Flag { position }
    }

    /// Get a user flag for a given position
    ///
    /// Positions are the relative bit positions in the flags data type after the Bluetooth
    /// Supplement specified flags (and reserved flags). A value of zero is the first user
    /// defined flag.
    pub fn get_user(&mut self, pos: usize) -> (r: Flag)
        requires
            pos <= usize::MAX - CORE_BIT_COUNT,
        ensures
            ({
                let p = (pos + CORE_BIT_COUNT) as usize;
                &&& r@ == p
                &&& final(self)@ == if old(self)@.contains_key(p) { old(self)@ } else { old(self)@.insert(p, false) }
            }),
    {
        self.get(pos + CoreFlags::get_bit_cnt())
    }

    /// Get a core flag
    pub fn get_core(&mut self, core: CoreFlags) -> (r: Flag)
        ensures
            ({
                let p = spec_core_position(core);
                &&& r@ == p
                &&& final(self)@ == if old(self)@.contains_key(p) { old(self)@ } else { old(self)@.insert(p, false) }
            }),
    {
        self.get(core.get_position())
    }

    /// The flags, in the order of their positions
    pub fn iter(&self) -> (r: Vec<Flag>)
        ensures
            forall|i: int, j: int| 0 <= i < j < r@.len() ==> (#[trigger] r@[i])@ < (#[trigger] r@[j])@,
            forall|p: usize| self@.contains_key(p) <==> exists|i: int| 0 <= i < r@.len() && (#[trigger] r@[i])@ == p,
    {
        let mut r: Vec<Flag> = Vec::new();
        let ghost keys = self.set.iter().remaining().map_values(|kv: (&usize, &bool)| *kv.0);
        for e in it: self.set.iter()
            invariant
                keys == it.seq().map_values(|kv: (&usize, &bool)| *kv.0),
                increasing_seq(keys),
                r@.len() == it.index(),
                forall|i: int| 0 <= i < it.index() ==> (#[trigger] r@[i])@ == keys[i],
        {
            r.push(Flag { position: *e.0 });
        }
        proof {
            let v = self.set.iter().remaining();
            assert forall|i: int, j: int| 0 <= i < j < r@.len() implies (#[trigger] r@[i])@ < (#[trigger] r@[j])@ by {
                assert(keys[i].cmp_spec(&keys[j]) is Less);
            }
            assert forall|p: usize| self@.contains_key(p) <==> exists|i: int| 0 <= i < r@.len() && (#[trigger] r@[i])@ == p by {
                if self@.contains_key(p) {
                    assert(v.contains((&p, &self@[p])));
                    let i = choose|i: int| 0 <= i < v.len() && v[i] == (&p, &self@[p]);
                    assert(r@[i]@ == p);
                }
                if exists|i: int| 0 <= i < r@.len() && (#[trigger] r@[i])@ == p {
                    let i = choose|i: int| 0 <= i < r@.len() && (#[trigger] r@[i])@ == p;
                    assert(self@.contains_key(*v[i].0));
                }
            }
        }
        r
    }
}

/// Two to the power of `b`
pub open spec fn spec_pow2(b: nat) -> nat
    decreases b,
{
    if b == 0 { 1 } else { 2 * spec_pow2((b - 1) as nat) }
}

/// Two to the power of `b`, for a bit of a byte
fn pow2(b: usize) -> (r: usize)
    requires
        b < 8,
    ensures
        r == spec_pow2(b as nat),
        1 <= r <= 128,
{
    reveal_with_fuel(spec_pow2, 8);
    match b {
        0 => 1,
        1 => 2,
        2 => 4,
        3 => 8,
        4 => 16,
        5 => 32,
        6 => 64,
        _ => 128,
    }
}

/// Whether the flag at position `p` is enabled
pub open spec fn spec_enabled(m: Map<usize, bool>, p: int) -> bool {
    0 <= p <= usize::MAX && m.contains_key(p as usize) && m[p as usize]
}

/// The value of the lowest `b` bits of the octet `o` of the flags: bit `k` is set where the
/// flag at position `8 * o + k` is enabled
pub open spec fn spec_flag_bits(m: Map<usize, bool>, o: int, b: nat) -> nat
    decreases b,
{
    if b == 0 {
        0
    } else {
        spec_flag_bits(m, o, (b - 1) as nat) + if spec_enabled(m, 8 * o + b - 1) { spec_pow2((b - 1) as nat) } else { 0 }
    }
}

/// The lowest `b` bits are less than two to the power of `b`; without the lowest bit they
/// leave the lowest bit free
proof fn lemma_flag_bits_bound(m: Map<usize, bool>, o: int, b: nat)
    ensures
        spec_flag_bits(m, o, b) < spec_pow2(b),
        !spec_enabled(m, 8 * o) ==> spec_flag_bits(m, o, b) % 2 == 0,
    decreases b,
{
    if b > 0 {
        lemma_flag_bits_bound(m, o, (b - 1) as nat);
        if b >= 2 {
            lemma_pow2_even((b - 1) as nat);
        }
    }
}

/// Two to the power of a positive number is even
proof fn lemma_pow2_even(b: nat)
    requires
        b >= 1,
    ensures
        spec_pow2(b) % 2 == 0,
{
}

/// Whether `n` is the number of bytes of the raw form of the flags `m`: the length byte, the
/// type, and the octets up to the last one that holds an enabled flag
pub open spec fn spec_is_raw_len(m: Map<usize, bool>, n: nat) -> bool {
    &&& n >= 2
    &&& forall|p: usize| m.contains_key(p) && m[p] ==> p / 8 + 1 <= n
    &&& (n == 2 || exists|p: usize| m.contains_key(p) && m[p] && p / 8 + 1 == n)
}

/// The number of bytes of the raw form of the flags `m`
pub open spec fn spec_flags_raw_len(m: Map<usize, bool>) -> nat {
    choose|n: nat| spec_is_raw_len(m, n)
}

/// The flags have one raw length
proof fn lemma_raw_len_unique(m: Map<usize, bool>, a: nat, b: nat)
    requires
        spec_is_raw_len(m, a),
        spec_is_raw_len(m, b),
    ensures
        a == b,
{
    if a != 2 {
        let p = choose|p: usize| m.contains_key(p) && m[p] && p / 8 + 1 == a;
    }
    if b != 2 {
        let p = choose|p: usize| m.contains_key(p) && m[p] && p / 8 + 1 == b;
    }
}

/// The raw form of the flags `m`
///
/// The octets of the flags start with the length byte: the flags at positions 0 to 7 share
/// the length byte, which is then set to the length, and those at positions 8 to 15 share the
/// byte of the type.
pub open spec fn spec_flags_raw(m: Map<usize, bool>) -> Seq<u8> {
    let len = spec_flags_raw_len(m);
    Seq::new(len, |i: int|
        if i == 0 {
            ((len % 256) - 1) as u8
        } else if i == 1 {
            (if spec_enabled(m, 8) { spec_flag_bits(m, 1, 8) } else { spec_flag_bits(m, 1, 8) + 1 }) as u8
        } else {
            spec_flag_bits(m, i, 8) as u8
        })
}

/// Whether bit `p % 8` of the data octet `p / 8` of the raw flags `raw` (type first) is set
pub open spec fn spec_raw_bit(raw: Seq<u8>, p: int) -> bool {
    0 <= p && p / 8 < raw.len() - 1 && (raw[1 + p / 8] as nat / spec_pow2((p % 8) as nat)) % 2 == 1
}

impl Flags {
    /// Whether the flag at `position` is enabled
    fn enabled_at(&self, position: usize) -> (r: bool)
        ensures
            r == spec_enabled(self@, position as int),
    {
        match self.set.get(&position) {
            Some(state) => *state,
            None => false,
        }
    }

    /// The value of the octet `o` of the flags
    fn flag_byte(&self, o: usize) -> (r: u8)
        requires
            o <= usize::MAX / 8,
        ensures
            r == spec_flag_bits(self@, o as int, 8),
    {
        let mut acc: usize = 0;
        let mut b: usize = 0;
        while b < 8
            invariant
                b <= 8,
                o <= usize::MAX / 8,
                acc == spec_flag_bits(self@, o as int, b as nat),
            decreases 8 - b,
        {
            proof { lemma_flag_bits_bound(self@, o as int, b as nat); }
            if self.enabled_at(8 * o + b) {
                acc = acc + pow2(b);
            }
            b += 1;
        }
        proof {
            lemma_flag_bits_bound(self@, o as int, 8);
            reveal_with_fuel(spec_pow2, 9);
        }
        acc as u8
    }

    /// The number of bytes of the raw form
    fn raw_len(&self) -> (r: usize)
        ensures
            r == spec_flags_raw_len(self@),
            r >= 2,
            r <= usize::MAX / 8 + 1,
    {
        let mut len: usize = 2;
        let ghost v = self.set.iter().remaining();
        for e in it: self.set.iter()
            invariant
                v == it.seq(),
                2 <= len <= usize::MAX / 8 + 1,
                forall|j: int| 0 <= j < it.index() && *(#[trigger] v[j]).1 ==> *v[j].0 / 8 + 1 <= len,
                len == 2 || exists|j: int| 0 <= j < it.index() && *(#[trigger] v[j]).1 && *v[j].0 / 8 + 1 == len,
        {
            if *e.1 && *e.0 / 8 + 1 > len {
                len = *e.0 / 8 + 1;
            }
        }
        proof {
            let m = self@;
            assert forall|p: usize| m.contains_key(p) && m[p] implies p / 8 + 1 <= len by {
                assert(v.contains((&p, &m[p])));
                let j = choose|j: int| 0 <= j < v.len() && v[j] == (&p, &m[p]);
            }
            if len != 2 {
                let j = choose|j: int| 0 <= j < v.len() && *(#[trigger] v[j]).1 && *v[j].0 / 8 + 1 == len;
                assert(m.contains_key(*v[j].0) && m[*v[j].0] == *v[j].1);
            }
            assert(spec_is_raw_len(m, len as nat));
            lemma_raw_len_unique(m, len as nat, spec_flags_raw_len(m));
        }
        len
    }
}

impl IntoRaw for Flags {
    open spec fn spec_fits_raw(&self) -> bool {
        spec_flags_raw_len(self@) % 256 != 0
    }

    open spec fn spec_into_raw(&self) -> Seq<u8> {
        spec_flags_raw(self@)
    }

    fn into_raw(&self) -> (r: Vec<u8>) {
        let len = self.raw_len();
        let mut raw = new_raw_type(AssignedTypes::Flags.val());
        while raw.len() < len
            invariant
                2 <= raw@.len() <= len,
            decreases len - raw@.len(),
        {
            raw.push(0);
        }
        let first = self.flag_byte(1);
        proof { lemma_flag_bits_bound(self@, 1, 8); reveal_with_fuel(spec_pow2, 9); }
        let type_byte: u8 = if self.enabled_at(8) { first } else { first + 1 };
        raw.set(1, type_byte);
        let mut o: usize = 2;
        while o < len
            invariant
                2 <= o <= len,
                len <= usize::MAX / 8 + 1,
                raw@.len() == len,
                raw@[1] == type_byte,
                forall|i: int| 2 <= i < o ==> raw@[i] == spec_flag_bits(self@, i, 8) as u8,
            decreases len - o,
        {
            let byte = self.flag_byte(o);
            raw.set(o, byte);
            o += 1;
        }
        set_len(&mut raw);
        assert(raw@ =~= spec_flags_raw(self@));
        raw
    }
}

impl TryFromRaw for Flags {
    open spec fn spec_from_raw(raw: Seq<u8>, r: Result<Flags, Error>) -> bool {
        &&& (raw.len() == 0 || raw[0] != spec_assigned_type_val(AssignedTypes::Flags)
            ==> r == Err::<Flags, Error>(spec_type_error(raw)))
        &&& (raw.len() > 0 && raw[0] == spec_assigned_type_val(AssignedTypes::Flags) ==> (r matches Ok(f) && {
            &&& forall|p: usize| f@.contains_key(p) <==> spec_raw_bit(raw, p as int)
            &&& forall|p: usize| f@.contains_key(p) ==> f@[p]
        }))
    }

    fn try_from_raw(raw: &[u8]) -> (r: Result<Flags, Error>) {
        if raw.len() == 0 {
            return Err(Error::RawTooSmall);
        }
        if raw[0] != AssignedTypes::Flags.val() {
            return Err(Error::IncorrectDataType);
        }
        let data_len = raw.len() - 1;
        let mut flags = Flags::new();
        let mut o: usize = 0;
        while o < data_len
            invariant
                data_len == raw@.len() - 1,
                raw@.len() <= usize::MAX / 8,
                o <= data_len,
                forall|p: usize| flags@.contains_key(p) ==> flags@[p],
                forall|p: usize| #![trigger flags@.contains_key(p)] flags@.contains_key(p) <==> (p < 8 * o && spec_raw_bit(raw@, p as int)),
            decreases data_len - o,
        {
            let byte = raw[1 + o];
            let mut b: usize = 0;
            while b < 8
                invariant
                    data_len == raw@.len() - 1,
                    raw@.len() <= usize::MAX / 8,
                    o < data_len,
                    b <= 8,
                    byte == raw@[1 + o],
                    forall|p: usize| flags@.contains_key(p) ==> flags@[p],
                    forall|p: usize| #![trigger flags@.contains_key(p)] flags@.contains_key(p) <==> (p < 8 * o + b && spec_raw_bit(raw@, p as int)),
                decreases 8 - b,
            {
                let position = 8 * o + b;
                proof {
                    assert(position / 8 == o as int);
                    assert(position % 8 == b as int);
                }
                let ghost before = flags@;
                if (byte as usize / pow2(b)) % 2 == 1 {
                    proof { assert(spec_raw_bit(raw@, position as int)); }
                    flags.set_state(position, true);
                } else {
                    proof { assert(!spec_raw_bit(raw@, position as int)); }
                }
                proof {
                    assert forall|p: usize| #![trigger flags@.contains_key(p)] flags@.contains_key(p) <==> (p < 8 * o + b + 1 && spec_raw_bit(raw@, p as int)) by {
                        if p != position {
                            assert(flags@.contains_key(p) == before.contains_key(p));
                        }
                    }
                }
                b += 1;
            }
            o += 1;
        }
        proof {
            assert forall|p: usize| spec_raw_bit(raw@, p as int) implies p < 8 * data_len by {}
        }
        Ok(flags)
    }
}

} // verus!
