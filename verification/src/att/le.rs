//! Little endian encoding of integers
//!
//! All integers of the Attribute Protocol are sent least significant byte first. The functions
//! here convert between an integer of up to 128 bits and its little endian bytes.
use vstd::prelude::*;

verus! {

/// 256 to the power of `n`
pub open spec fn pow256(n: nat) -> nat
    decreases n,
{
    if n == 0 {
        1
    } else {
        256 * pow256((n - 1) as nat)
    }
}

/// The value of little endian bytes
pub open spec fn le_value(s: Seq<u8>) -> nat
    decreases s.len(),
{
    if s.len() == 0 {
        0
    } else {
        s[0] as nat + 256 * le_value(s.drop_first())
    }
}

/// The `n` lowest little endian bytes of `v`
pub open spec fn le_bytes(v: nat, n: nat) -> Seq<u8>
    decreases n,
{
    if n == 0 {
        Seq::empty()
    } else {
        seq![(v % 256) as u8] + le_bytes(v / 256, (n - 1) as nat)
    }
}

/// The two's complement bits of `v` in an integer of `n` bytes
pub open spec fn twos_complement(v: int, n: nat) -> nat {
    if v < 0 {
        (v + pow256(n)) as nat
    } else {
        v as nat
    }
}

/// The signed value of the `n` byte two's complement bits `u`
pub open spec fn signed_value(u: nat, n: nat) -> int {
    if n > 0 && u >= pow256(n) / 2 {
        u - pow256(n)
    } else {
        u as int
    }
}

pub proof fn lemma_pow256_pos(n: nat)
    ensures
        pow256(n) > 0,
    decreases n,
{
    if n > 0 {
        lemma_pow256_pos((n - 1) as nat);
    }
}

pub proof fn lemma_pow256_mono(a: nat, b: nat)
    requires
        a <= b,
    ensures
        pow256(a) <= pow256(b),
    decreases b,
{
    if a < b {
        lemma_pow256_mono(a, (b - 1) as nat);
        lemma_pow256_pos((b - 1) as nat);
    }
}

/// The powers of 256 for the integer widths of Rust
pub proof fn lemma_pow256_values()
    ensures
        pow256(1) == 0x100,
        pow256(2) == 0x1_0000,
        pow256(4) == 0x1_0000_0000,
        pow256(8) == 0x1_0000_0000_0000_0000,
        pow256(16) == 0x1_0000_0000_0000_0000_0000_0000_0000_0000,
{
    reveal_with_fuel(pow256, 17);
}

pub proof fn lemma_le_bytes_len(v: nat, n: nat)
    ensures
        le_bytes(v, n).len() == n,
    decreases n,
{
    if n > 0 {
        lemma_le_bytes_len(v / 256, (n - 1) as nat);
    }
}

/// Reading back the `n` bytes written for `v` gives `v` modulo `256^n`.
pub proof fn lemma_le_value_of_bytes(v: nat, n: nat)
    ensures
        le_value(le_bytes(v, n)) == v % pow256(n),
    decreases n,
{
    if n == 0 {
        assert(le_bytes(v, n) =~= Seq::<u8>::empty());
    } else {
        let rest = le_bytes(v / 256, (n - 1) as nat);
        lemma_le_value_of_bytes(v / 256, (n - 1) as nat);
        lemma_pow256_pos((n - 1) as nat);
        assert((seq![(v % 256) as u8] + rest).drop_first() =~= rest);
        vstd::arithmetic::div_mod::lemma_mod_breakdown(v as int, 256, pow256((n - 1) as nat) as int);
    }
}

/// The value of `s` is below `256^|s|`.
pub proof fn lemma_le_value_bound(s: Seq<u8>)
    ensures
        le_value(s) < pow256(s.len()),
    decreases s.len(),
{
    if s.len() > 0 {
        lemma_le_value_bound(s.drop_first());
    }
}

/// Writing the value of `s` with `|s|` bytes gives `s` back.
pub proof fn lemma_le_bytes_of_value(s: Seq<u8>)
    ensures
        le_bytes(le_value(s), s.len()) == s,
    decreases s.len(),
{
    if s.len() > 0 {
        let rest = s.drop_first();
        lemma_le_bytes_of_value(rest);
        let v = le_value(s);
        vstd::arithmetic::div_mod::lemma_fundamental_div_mod_converse(
            v as int, 256, le_value(rest) as int, s[0] as int);
        lemma_le_bytes_len(v / 256, (s.len() - 1) as nat);
        assert(le_bytes(v, s.len()) =~= s);
    }
}

/// A value below `256^n` is read back from its `n` bytes unchanged.
pub proof fn lemma_le_roundtrip(v: nat, n: nat)
    requires
        v < pow256(n),
    ensures
        le_value(le_bytes(v, n)) == v,
        le_bytes(v, n).len() == n,
{
    lemma_le_value_of_bytes(v, n);
    lemma_le_bytes_len(v, n);
    vstd::arithmetic::div_mod::lemma_small_mod(v, pow256(n));
}

/// The signed value of the two's complement bits of `v` is `v`, for `v` in range.
pub proof fn lemma_twos_complement_roundtrip(v: int, n: nat)
    requires
        n > 0,
        -(pow256(n) / 2) <= v < pow256(n) / 2,
    ensures
        twos_complement(v, n) < pow256(n),
        signed_value(twos_complement(v, n), n) == v,
{
    lemma_pow256_pos(n);
    assert(pow256(n) == 256 * pow256((n - 1) as nat));
}

/// The two's complement bits of the signed value of `u` are `u`, for `u` in range.
pub proof fn lemma_signed_value_roundtrip(u: nat, n: nat)
    requires
        n > 0,
        u < pow256(n),
    ensures
        -(pow256(n) / 2) <= signed_value(u, n) < pow256(n) / 2,
        twos_complement(signed_value(u, n), n) == u,
{
    lemma_pow256_pos(n);
    assert(pow256(n) == 256 * pow256((n - 1) as nat));
}

/// The `n` little endian bytes of `v`
pub fn le_encode(v: u128, n: usize) -> (r: Vec<u8>)
    ensures
        r@ == le_bytes(v as nat, n as nat),
{
    let mut r: Vec<u8> = Vec::new();
    let mut x: u128 = v;
    let mut i: usize = 0;
    assert(r@ + le_bytes(x as nat, (n - i) as nat) =~= le_bytes(v as nat, n as nat));
    while i < n
        invariant
            i <= n,
            r@ + le_bytes(x as nat, (n - i) as nat) == le_bytes(v as nat, n as nat),
        decreases n - i,
    {
        let ghost old_r = r@;
        let b: u8 = (x % 256) as u8;
        r.push(b);
        assert(le_bytes(x as nat, (n - i) as nat) == seq![b] + le_bytes((x / 256) as nat, (n - i - 1) as nat));
        assert(r@ + le_bytes((x / 256) as nat, (n - i - 1) as nat) =~= old_r + le_bytes(x as nat, (n - i) as nat));
        x = x / 256;
        i = i + 1;
    }
    assert(r@ + le_bytes(x as nat, 0) =~= r@);
    r
}

/// The value of at most 16 little endian bytes
pub fn le_decode(raw: &[u8]) -> (r: u128)
    requires
        raw@.len() <= 16,
    ensures
        r == le_value(raw@),
{
    let len = raw.len();
    let mut acc: u128 = 0;
    let mut i: usize = len;
    proof {
        lemma_pow256_values();
    }
    assert(raw@.subrange(len as int, len as int) =~= Seq::<u8>::empty());
    while i > 0
        invariant
            i <= len,
            len == raw@.len(),
            len <= 16,
            acc == le_value(raw@.subrange(i as int, len as int)),
            pow256(16) == 0x1_0000_0000_0000_0000_0000_0000_0000_0000,
        decreases i,
    {
        let ghost tail = raw@.subrange(i as int, len as int);
        i = i - 1;
        proof {
            lemma_le_value_bound(tail);
            lemma_pow256_mono(tail.len(), 15);
            assert(pow256(16) == 256 * pow256(15));
            assert(raw@.subrange(i as int, len as int).drop_first() =~= tail);
        }
        acc = raw[i] as u128 + 256 * acc;
    }
    assert(raw@.subrange(0, len as int) =~= raw@);
    acc
}

} // verus!
