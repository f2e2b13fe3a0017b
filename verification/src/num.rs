use vstd::prelude::*;

verus! {

/// A 256-bit unsigned integer held as two 128-bit halves, enough for stake
/// amounts, storage-slot numbers and keccak outputs read as numbers.
#[derive(Clone, Copy, Debug, PartialEq, Eq, Structural)]
pub struct U256 {
    pub hi: u128,
    pub lo: u128,
}

pub open spec fn pow2_128() -> nat {
    0x100000000000000000000000000000000nat
}

pub open spec fn u256_val(x: U256) -> nat {
    (x.hi as nat) * pow2_128() + (x.lo as nat)
}

impl U256 {
    pub open spec fn spec_is_zero(self) -> bool {
        u256_val(self) == 0
    }

    pub fn is_zero(&self) -> (r: bool)
        ensures
            r == self.spec_is_zero(),
    {
        self.hi == 0 && self.lo == 0
    }

    pub fn zero() -> (r: U256)
        ensures
            u256_val(r) == 0,
    {
        U256 { hi: 0, lo: 0 }
    }

    pub fn from_u64(v: u64) -> (r: U256)
        ensures
            u256_val(r) == v as nat,
    {
        U256 { hi: 0, lo: v as u128 }
    }
}

pub fn u256_eq(a: &U256, b: &U256) -> (r: bool)
    ensures
        r == (u256_val(*a) == u256_val(*b)),
{
    let r = a.hi == b.hi && a.lo == b.lo;
    proof {
        if u256_val(*a) == u256_val(*b) && a.hi != b.hi {
            assert(false);
        }
    }
    r
}

/// `val(a) < val(b)` decided on the halves.
fn u256_lt(a: &U256, b: &U256) -> (r: bool)
    ensures
        r == (u256_val(*a) < u256_val(*b)),
{
    a.hi < b.hi || (a.hi == b.hi && a.lo < b.lo)
}

/// Whether `slot` lies in the association window `[base, base + 128)`.
pub fn u256_in_window(slot: &U256, base: &U256) -> (r: bool)
    ensures
        r == (u256_val(*base) <= u256_val(*slot) && u256_val(*slot) < u256_val(*base) + 128),
{
    let ge = !u256_lt(slot, base);
    let below_upper: bool;
    if base.lo <= u128::MAX - 128 {
        let bound = U256 { hi: base.hi, lo: base.lo + 128 };
        assert(u256_val(bound) == u256_val(*base) + 128);
        below_upper = u256_lt(slot, &bound);
    } else if base.hi < u128::MAX {
        let bound = U256 { hi: base.hi + 1, lo: base.lo - (u128::MAX - 127) };
        assert(u256_val(bound) == u256_val(*base) + 128);
        below_upper = u256_lt(slot, &bound);
    } else {
        // base + 128 reaches past the largest 256-bit value, so every slot is
        // below the upper bound.
        assert(u256_val(*slot) < u256_val(*base) + 128);
        below_upper = true;
    }
    ge && below_upper
}

// ---------------------------------------------------------------------------
// Hex parsing of slot strings, as Ethereum tooling parses a 256-bit
// radix-16 number: one optional `0x` prefix, then at most 64 hex digits
// (case-insensitive); the empty digit string denotes zero.
// ---------------------------------------------------------------------------

pub open spec fn is_hex_digit(b: u8) -> bool {
    (48 <= b && b <= 57) || (97 <= b && b <= 102) || (65 <= b && b <= 70)
}

pub open spec fn hex_digit_val(b: u8) -> nat {
    if 48 <= b && b <= 57 {
        (b - 48) as nat
    } else if 97 <= b && b <= 102 {
        (b - 87) as nat
    } else {
        (b - 55) as nat
    }
}

pub open spec fn all_hex_digits(s: Seq<u8>) -> bool {
    forall|i: int| 0 <= i < s.len() ==> is_hex_digit(s[i])
}

pub open spec fn hex_val(s: Seq<u8>) -> nat
    decreases s.len(),
{
    if s.len() == 0 {
        0
    } else {
        hex_val(s.drop_last()) * 16 + hex_digit_val(s.last())
    }
}

pub open spec fn strip_0x(s: Seq<u8>) -> Seq<u8> {
    if s.len() >= 2 && s[0] == 48u8 && s[1] == 120u8 {
        s.subrange(2, s.len() as int)
    } else {
        s
    }
}

/// The number a slot string denotes, or `None` when it is not a valid
/// 256-bit hex string.
pub open spec fn parse_hex_val(s: Seq<u8>) -> Option<nat> {
    let body = strip_0x(s);
    if body.len() <= 64 && all_hex_digits(body) {
        Some(hex_val(body))
    } else {
        None
    }
}

pub open spec fn pow16(n: nat) -> nat
    decreases n,
{
    if n == 0 {
        1
    } else {
        16 * pow16((n - 1) as nat)
    }
}

proof fn lemma_pow16_pos(n: nat)
    ensures
        pow16(n) >= 1,
    decreases n,
{
    if n > 0 {
        lemma_pow16_pos((n - 1) as nat);
    }
}

proof fn lemma_pow16_le(m: nat, n: nat)
    requires
        m <= n,
    ensures
        pow16(m) <= pow16(n),
    decreases n,
{
    if m < n {
        lemma_pow16_le(m, (n - 1) as nat);
        lemma_pow16_pos((n - 1) as nat);
    }
}

proof fn lemma_pow16_32()
    ensures
        pow16(32) == pow2_128(),
{
    reveal_with_fuel(pow16, 33);
}

proof fn lemma_hex_val_concat(a: Seq<u8>, b: Seq<u8>)
    ensures
        hex_val(a + b) == hex_val(a) * pow16(b.len()) + hex_val(b),
    decreases b.len(),
{
    if b.len() == 0 {
        assert(a + b =~= a);
        assert(pow16(0) == 1);
    } else {
        lemma_hex_val_concat(a, b.drop_last());
        assert((a + b).drop_last() =~= a + b.drop_last());
        assert((a + b).last() == b.last());
        let x = hex_val(a);
        let p = pow16((b.len() - 1) as nat);
        assert(x * p * 16 == x * (16 * p)) by (nonlinear_arith);
    }
}

fn hex_digit(b: u8) -> (r: u8)
    requires
        is_hex_digit(b),
    ensures
        r as nat == hex_digit_val(b),
        r <= 15,
{
    if b <= 57 {
        b - 48
    } else if b >= 97 {
        b - 87
    } else {
        b - 55
    }
}

fn is_hex_digit_exec(b: u8) -> (r: bool)
    ensures
        r == is_hex_digit(b),
{
    (48 <= b && b <= 57) || (97 <= b && b <= 102) || (65 <= b && b <= 70)
}

/// Accumulates the hex digits `s[from..to]` into a 128-bit value.
fn hex_accum(s: &Vec<u8>, from: usize, to: usize) -> (r: u128)
    requires
        from <= to && to <= s@.len(),
        to - from <= 32,
        all_hex_digits(s@.subrange(from as int, to as int)),
    ensures
        r as nat == hex_val(s@.subrange(from as int, to as int)),
{
    let mut val: u128 = 0;
    let mut i = from;
    while i < to
        invariant
            from <= i <= to,
            to <= s@.len(),
            to - from <= 32,
            all_hex_digits(s@.subrange(from as int, to as int)),
            val as nat == hex_val(s@.subrange(from as int, i as int)),
            (val as nat) < pow16((i - from) as nat),
        decreases to - i,
    {
        let ghost done = s@.subrange(from as int, i as int);
        let ghost next = s@.subrange(from as int, i as int + 1);
        assert(is_hex_digit(s@[i as int])) by {
            assert(s@.subrange(from as int, to as int)[i - from] == s@[i as int]);
        }
        let b = s[i];
        let d = hex_digit(b);
        proof {
            assert(next.drop_last() =~= done);
            assert(next.last() == s@[i as int]);
            lemma_pow16_le(((i - from) + 1) as nat, 32);
            lemma_pow16_32();
            // val * 16 + 15 < 16 * pow16(i - from) == pow16(i - from + 1) <= 2^128
        }
        val = val * 16 + (d as u128);
        i = i + 1;
    }
    proof {
        assert(s@.subrange(from as int, i as int) =~= s@.subrange(from as int, to as int));
    }
    val
}

/// Parses a slot string as a 256-bit hex number.
pub fn parse_hex_u256(s: &Vec<u8>) -> (r: Option<U256>)
    ensures
        match r {
            Some(v) => parse_hex_val(s@) == Some(u256_val(v)),
            None => parse_hex_val(s@) is None,
        },
{
    let start: usize = if s.len() >= 2 && s[0] == 48u8 && s[1] == 120u8 {
        2
    } else {
        0
    };
    let ghost body = strip_0x(s@);
    proof {
        assert(s@.subrange(start as int, s@.len() as int) =~= body);
    }
    let n = s.len() - start;
    if n > 64 {
        return None;
    }
    let mut i = start;
    while i < s.len()
        invariant
            start <= i <= s@.len(),
            body == strip_0x(s@),
            body == s@.subrange(start as int, s@.len() as int),
            forall|j: int| start <= j < i ==> is_hex_digit(s@[j]),
        decreases s.len() - i,
    {
        if !is_hex_digit_exec(s[i]) {
            proof {
                assert(body[i - start] == s@[i as int]);
                assert(!all_hex_digits(body));
            }
            return None;
        }
        i = i + 1;
    }
    proof {
        assert(forall|j: int| 0 <= j < body.len() ==> body[j] == s@[start + j]);
        assert(all_hex_digits(body));
    }
    let split: usize = if n > 32 {
        s.len() - 32
    } else {
        start
    };
    proof {
        assert(all_hex_digits(s@.subrange(start as int, split as int))) by {
            assert(forall|j: int| 0 <= j < split - start ==> s@.subrange(
                start as int,
                split as int,
            )[j] == s@[start + j]);
        }
        assert(all_hex_digits(s@.subrange(split as int, s@.len() as int))) by {
            assert(forall|j: int| 0 <= j < s@.len() - split ==> s@.subrange(
                split as int,
                s@.len() as int,
            )[j] == s@[split + j]);
        }
    }
    let hi = hex_accum(s, start, split);
    let lo = hex_accum(s, split, s.len());
    let r = U256 { hi, lo };
    proof {
        let a = s@.subrange(start as int, split as int);
        let b = s@.subrange(split as int, s@.len() as int);
        lemma_hex_val_concat(a, b);
        assert(a + b =~= body);
        if n > 32 {
            assert(b.len() == 32);
            lemma_pow16_32();
        } else {
            assert(a.len() == 0);
            assert(hex_val(a) == 0);
        }
        assert(u256_val(r) == hex_val(body));
    }
    Some(r)
}

// ---------------------------------------------------------------------------
// Big-endian byte strings read as numbers: keccak outputs and addresses.
// ---------------------------------------------------------------------------

pub open spec fn be_val(s: Seq<u8>) -> nat
    decreases s.len(),
{
    if s.len() == 0 {
        0
    } else {
        be_val(s.drop_last()) * 256 + (s.last() as nat)
    }
}

pub open spec fn pow256(n: nat) -> nat
    decreases n,
{
    if n == 0 {
        1
    } else {
        256 * pow256((n - 1) as nat)
    }
}

pub(crate) proof fn lemma_pow256_pos(n: nat)
    ensures
        pow256(n) >= 1,
    decreases n,
{
    if n > 0 {
        lemma_pow256_pos((n - 1) as nat);
    }
}

pub(crate) proof fn lemma_pow256_le(m: nat, n: nat)
    requires
        m <= n,
    ensures
        pow256(m) <= pow256(n),
    decreases n,
{
    if m < n {
        lemma_pow256_le(m, (n - 1) as nat);
        lemma_pow256_pos((n - 1) as nat);
    }
}

pub(crate) proof fn lemma_pow256_16()
    ensures
        pow256(16) == pow2_128(),
{
    reveal_with_fuel(pow256, 17);
}

pub(crate) proof fn lemma_pow256_add(a: nat, b: nat)
    ensures
        pow256(a + b) == pow256(a) * pow256(b),
    decreases b,
{
    if b == 0 {
        assert(pow256(a) * 1 == pow256(a));
    } else {
        lemma_pow256_add(a, (b - 1) as nat);
        let p = pow256((b - 1) as nat);
        assert(pow256(a + b) == 256 * pow256((a + b - 1) as nat));
        assert((a + b - 1) as nat == a + ((b - 1) as nat));
        assert(pow256(a) * (256 * p) == 256 * (pow256(a) * p)) by (nonlinear_arith);
        assert(pow256(b) == 256 * p);
    }
}

pub(crate) proof fn lemma_pow256_8()
    ensures
        pow256(8) == 0x10000000000000000,
{
    reveal_with_fuel(pow256, 9);
}

/// A big-endian byte string with a non-zero byte denotes a positive number.
pub(crate) proof fn lemma_be_val_pos(s: Seq<u8>, k: int)
    requires
        0 <= k < s.len(),
        s[k] != 0,
    ensures
        be_val(s) >= 1,
    decreases s.len(),
{
    if s.len() > 0 {
        if k == s.len() - 1 {
            assert(s.last() == s[k]);
        } else {
            lemma_be_val_pos(s.drop_last(), k);
        }
    }
}

pub(crate) proof fn lemma_be_val_bound(s: Seq<u8>)
    ensures
        be_val(s) < pow256(s.len()),
    decreases s.len(),
{
    if s.len() > 0 {
        lemma_be_val_bound(s.drop_last());
    }
}

pub(crate) proof fn lemma_be_val_concat(a: Seq<u8>, b: Seq<u8>)
    ensures
        be_val(a + b) == be_val(a) * pow256(b.len()) + be_val(b),
    decreases b.len(),
{
    if b.len() == 0 {
        assert(a + b =~= a);
        assert(pow256(0) == 1);
        assert(be_val(a) * 1 == be_val(a));
        assert(be_val(a + b) == be_val(a) * pow256(b.len()) + be_val(b));
    } else {
        lemma_be_val_concat(a, b.drop_last());
        let ab = a + b;
        assert(ab.drop_last() =~= a + b.drop_last());
        assert(ab.last() == b.last());
        let x = be_val(a);
        let p = pow256((b.len() - 1) as nat);
        assert(x * p * 256 == x * (256 * p)) by (nonlinear_arith);
        assert(be_val(ab) == be_val(ab.drop_last()) * 256 + (ab.last() as nat));
        assert(be_val(ab.drop_last()) == x * p + be_val(b.drop_last()));
        assert(pow256(b.len()) == 256 * p);
        assert(be_val(b) == be_val(b.drop_last()) * 256 + (b.last() as nat));
        assert((x * p + be_val(b.drop_last())) * 256 == x * p * 256 + be_val(b.drop_last()) * 256)
            by (nonlinear_arith);
        assert(be_val(ab) == x * (256 * p) + be_val(b));
        assert(be_val(a + b) == be_val(a) * pow256(b.len()) + be_val(b));
    }
}

/// Accumulates the bytes `s[from..to]` big-endian into a 128-bit value.
pub(crate) fn be_accum(s: &Vec<u8>, from: usize, to: usize) -> (r: u128)
    requires
        from <= to && to <= s@.len(),
        to - from <= 16,
    ensures
        r as nat == be_val(s@.subrange(from as int, to as int)),
{
    let mut val: u128 = 0;
    let mut i = from;
    while i < to
        invariant
            from <= i <= to,
            to <= s@.len(),
            to - from <= 16,
            val as nat == be_val(s@.subrange(from as int, i as int)),
            (val as nat) < pow256((i - from) as nat),
        decreases to - i,
    {
        let ghost done = s@.subrange(from as int, i as int);
        let ghost next = s@.subrange(from as int, i as int + 1);
        let b = s[i];
        proof {
            assert(next.drop_last() =~= done);
            assert(next.last() == s@[i as int]);
            lemma_pow256_le(((i - from) + 1) as nat, 16);
            lemma_pow256_16();
        }
        val = val * 256 + (b as u128);
        i = i + 1;
    }
    proof {
        assert(s@.subrange(from as int, i as int) =~= s@.subrange(from as int, to as int));
    }
    val
}

/// Reads a 32-byte string (a keccak output) as a 256-bit big-endian number.
pub fn be_bytes_to_u256(b: &Vec<u8>) -> (r: U256)
    requires
        b@.len() == 32,
    ensures
        u256_val(r) == be_val(b@),
{
    let hi = be_accum(b, 0, 16);
    let lo = be_accum(b, 16, 32);
    let r = U256 { hi, lo };
    proof {
        let x = b@.subrange(0, 16);
        let y = b@.subrange(16, 32);
        lemma_be_val_concat(x, y);
        assert(x + y =~= b@);
        lemma_pow256_16();
    }
    r
}

/// Reads a 20-byte address as a 256-bit big-endian number.
pub fn address_value(a: &Vec<u8>) -> (r: U256)
    requires
        a@.len() == 20,
    ensures
        u256_val(r) == be_val(a@),
{
    let hi = be_accum(a, 0, 4);
    let lo = be_accum(a, 4, 20);
    let r = U256 { hi, lo };
    proof {
        let x = a@.subrange(0, 4);
        let y = a@.subrange(4, 20);
        lemma_be_val_concat(x, y);
        assert(x + y =~= a@);
        lemma_pow256_16();
    }
    r
}

} // verus!
