use vstd::prelude::*;

use crate::num::{
    be_accum, be_val, lemma_be_val_concat, lemma_be_val_pos, lemma_pow256_16, lemma_pow256_8,
    lemma_pow256_add, lemma_pow256_pos, pow256, u256_val, U256,
};
use crate::util::bytes_range;
use vstd::arithmetic::div_mod::{
    lemma_div_denominator, lemma_div_multiples_vanish_fancy, lemma_hoist_over_denominator,
    lemma_mod_multiples_vanish,
};

verus! {

/// The ABI frame `validatePaymasterUserOp` returns: two 32-byte head words,
/// the first an offset into the data, and at that offset the length and
/// bytes of the paymaster context. `None` when the frame does not decode.
pub open spec fn decode_paymaster_context(d: Seq<u8>) -> Option<Seq<u8>> {
    if d.len() < 64 {
        None
    } else {
        let off = be_val(d.subrange(0, 32));
        if off + 32 <= d.len() {
            let len = be_val(d.subrange(off as int, off as int + 32));
            if off + 32 + len <= d.len() {
                Some(d.subrange(off as int + 32, off as int + 32 + len))
            } else {
                None
            }
        } else {
            None
        }
    }
}

/// All-zero leading bytes make a word's value its low tail.
proof fn lemma_be_val_split(s: Seq<u8>)
    requires
        s.len() == 32,
    ensures
        be_val(s) == be_val(s.subrange(0, 24)) * crate::num::pow256(8) + be_val(s.subrange(24, 32)),
{
    lemma_be_val_concat(s.subrange(0, 24), s.subrange(24, 32));
    assert(s.subrange(0, 24) + s.subrange(24, 32) =~= s);
}

proof fn lemma_be_val_all_zero(s: Seq<u8>)
    requires
        forall|i: int| 0 <= i < s.len() ==> s[i] == 0,
    ensures
        be_val(s) == 0,
    decreases s.len(),
{
    if s.len() > 0 {
        lemma_be_val_all_zero(s.drop_last());
    }
}

/// Reads a 32-byte big-endian word as a machine size, when it fits one.
fn read_word_usize(d: &Vec<u8>, at: usize) -> (r: Option<usize>)
    requires
        at + 32 <= d@.len(),
    ensures
        match r {
            Some(v) => v as nat == be_val(d@.subrange(at as int, at as int + 32)),
            None => be_val(d@.subrange(at as int, at as int + 32)) > usize::MAX as nat,
        },
{
    let ghost word = d@.subrange(at as int, at as int + 32);
    let dlen = d.len();
    let mut z: usize = 0;
    while z < 24
        invariant
            0 <= z <= 24,
            at + 32 <= d@.len(),
            d@.len() <= usize::MAX,
            word == d@.subrange(at as int, at as int + 32),
            forall|zz: int| 0 <= zz < z ==> word[zz] == 0,
        decreases 24 - z,
    {
        proof {
            assert(word[z as int] == d@[at + z]);
        }
        if d[at + z] != 0 {
            proof {
                lemma_be_val_split(word);
                lemma_be_val_pos(word.subrange(0, 24), z as int);
                lemma_pow256_8();
                crate::num::lemma_be_val_bound(word.subrange(24, 32));
                // the word is at least 2^64, past any machine size
                assert(be_val(word) >= 0x10000000000000000);
            }
            return None;
        }
        z = z + 1;
    }
    let low = be_accum(d, at + 24, at + 32);
    proof {
        lemma_be_val_split(word);
        assert(word.subrange(0, 24) =~= d@.subrange(at as int, at as int + 24));
        assert(forall|i: int| 0 <= i < 24 ==> word.subrange(0, 24)[i] == word[i]);
        lemma_be_val_all_zero(word.subrange(0, 24));
        assert(word.subrange(24, 32) =~= d@.subrange(at as int + 24, at as int + 32));
        assert(be_val(word) == be_val(word.subrange(24, 32)));
    }
    if low > usize::MAX as u128 {
        return None;
    }
    Some(low as usize)
}

/// Decodes the paymaster context from the return data of
/// `validatePaymasterUserOp`.
pub fn decode_paymaster_return(d: &Vec<u8>) -> (r: Option<Vec<u8>>)
    ensures
        match r {
            Some(c) => decode_paymaster_context(d@) == Some(c@),
            None => decode_paymaster_context(d@) is None,
        },
{
    if d.len() < 64 {
        return None;
    }
    let off = match read_word_usize(d, 0) {
        None => {
            return None;
        },
        Some(o) => o,
    };
    if off > d.len() - 32 {
        return None;
    }
    let len = match read_word_usize(d, off) {
        None => {
            return None;
        },
        Some(l) => l,
    };
    if len > d.len() - off - 32 {
        return None;
    }
    let c = bytes_range(d, off + 32, off + 32 + len);
    Some(c)
}

// ---------------------------------------------------------------------------
// ABI encoding of the values the mempool key is built from.
// ---------------------------------------------------------------------------

/// A 32-byte big-endian word holding the number `v`.
pub open spec fn be32_word(v: nat) -> Seq<u8> {
    Seq::new(32, |i: int| ((v / pow256((31 - i) as nat)) % 256) as u8)
}

/// The padding that rounds `n` content bytes up to a word boundary.
pub open spec fn abi_pad_len(n: nat) -> nat {
    if n % 32 == 0 {
        0
    } else {
        (32 - n % 32) as nat
    }
}

/// The ABI encoding of one dynamic byte string: an offset word of 32, the
/// length word, then the bytes padded with zeros to a word boundary.
pub open spec fn abi_encode_bytes(s: Seq<u8>) -> Seq<u8> {
    be32_word(32) + be32_word(s.len()) + s + Seq::new(abi_pad_len(s.len()), |i: int| 0u8)
}

/// The bytes of a 128-bit value, big-endian.
fn u128_be16(x: u128) -> (r: Vec<u8>)
    ensures
        r@.len() == 16,
        forall|m: int|
            0 <= m < 16 ==> r@[m] == (((x as nat) / pow256((15 - m) as nat)) % 256) as u8,
{
    let mut le: Vec<u8> = Vec::new();
    let mut y = x;
    let mut m: usize = 0;
    proof {
        assert(pow256(0) == 1);
        assert((x as nat) / 1 == x as nat);
    }
    while m < 16
        invariant
            0 <= m <= 16,
            (y as nat) == (x as nat) / pow256(m as nat),
            le@.len() == m,
            forall|k: int|
                0 <= k < m ==> le@[k] == (((x as nat) / pow256(k as nat)) % 256) as u8,
        decreases 16 - m,
    {
        le.push((y % 256) as u8);
        proof {
            lemma_pow256_pos(m as nat);
            lemma_div_denominator(x as int, pow256(m as nat) as int, 256);
            assert(pow256((m + 1) as nat) == 256 * pow256(m as nat));
            assert(pow256(m as nat) * 256 == 256 * pow256(m as nat)) by (nonlinear_arith);
            assert(((x as nat) / pow256(m as nat)) / 256 == (x as nat) / pow256((m + 1) as nat));
        }
        y = y / 256;
        m = m + 1;
    }
    let mut r: Vec<u8> = Vec::new();
    let mut i: usize = 0;
    while i < 16
        invariant
            0 <= i <= 16,
            le@.len() == 16,
            forall|k: int|
                0 <= k < 16 ==> le@[k] == (((x as nat) / pow256(k as nat)) % 256) as u8,
            r@.len() == i,
            forall|k: int| 0 <= k < i ==> r@[k] == le@[15 - k],
        decreases 16 - i,
    {
        r.push(le[15 - i]);
        i = i + 1;
    }
    r
}

/// `val / 256^k` reaches only the high half once `k` passes 16 bytes.
proof fn lemma_val_div_high(v: U256, k: nat)
    requires
        16 <= k,
    ensures
        u256_val(v) / pow256(k) == (v.hi as nat) / pow256((k - 16) as nat),
{
    let val = u256_val(v);
    lemma_pow256_16();
    assert(pow256(16) * (v.hi as nat) + (v.lo as nat) == val) by (nonlinear_arith)
        requires val == (v.hi as nat) * crate::num::pow2_128() + (v.lo as nat) && pow256(16)
        == crate::num::pow2_128();
    assert((v.lo as nat) < pow256(16));
    lemma_div_multiples_vanish_fancy(v.hi as int, v.lo as int, pow256(16) as int);
    assert(val / pow256(16) == v.hi as nat);
    lemma_pow256_pos(16);
    lemma_pow256_pos((k - 16) as nat);
    lemma_div_denominator(val as int, pow256(16) as int, pow256((k - 16) as nat) as int);
    lemma_pow256_add(16, (k - 16) as nat);
}

/// `val / 256^k % 256` reads a low-half byte while `k` stays under 16.
proof fn lemma_val_div_low(v: U256, k: nat)
    requires
        k < 16,
    ensures
        (u256_val(v) / pow256(k)) % 256 == ((v.lo as nat) / pow256(k)) % 256,
{
    let val = u256_val(v);
    let d = pow256(k);
    let q = (v.hi as nat) * pow256((16 - k) as nat);
    lemma_pow256_pos(k);
    lemma_pow256_add(k, (16 - k) as nat);
    lemma_pow256_16();
    // val == q * d + lo
    assert(val == q * d + (v.lo as nat)) by (nonlinear_arith)
        requires
            val == (v.hi as nat) * crate::num::pow2_128() + (v.lo as nat),
            crate::num::pow2_128() == pow256(k) * pow256((16 - k) as nat),
            q == (v.hi as nat) * pow256((16 - k) as nat),
            d == pow256(k);
    lemma_hoist_over_denominator(v.lo as int, q as int, d);
    assert((v.lo as nat) / d + q == ((v.lo as nat) + q * d) / d);
    assert(val / d == (v.lo as nat) / d + q);
    // q is a multiple of 256, so it vanishes under the modulus
    let t = (v.hi as nat) * pow256((15 - k) as nat);
    assert(q == 256 * t) by (nonlinear_arith)
        requires
            q == (v.hi as nat) * pow256((16 - k) as nat),
            t == (v.hi as nat) * pow256((15 - k) as nat),
            pow256((16 - k) as nat) == 256 * pow256((15 - k) as nat);
    assert(pow256((16 - k) as nat) == 256 * pow256((15 - k) as nat));
    lemma_mod_multiples_vanish(t as int, ((v.lo as nat) / d) as int, 256);
    assert((256 * t + (v.lo as nat) / d) % 256 == ((v.lo as nat) / d) % 256);
}

/// The bytes of a 256-bit value, big-endian.
pub fn u256_be_bytes(v: &U256) -> (r: Vec<u8>)
    ensures
        r@ == be32_word(u256_val(*v)),
        r@.len() == 32,
{
    let hi = u128_be16(v.hi);
    let mut r = hi;
    let mut lo = u128_be16(v.lo);
    r.append(&mut lo);
    proof {
        assert forall|i: int| 0 <= i < 32 implies r@[i] == be32_word(u256_val(*v))[i] by {
            if i < 16 {
                lemma_val_div_high(*v, (31 - i) as nat);
                assert(r@[i] == (((v.hi as nat) / pow256((15 - i) as nat)) % 256) as u8);
            } else {
                lemma_val_div_low(*v, (31 - i) as nat);
                assert(r@[i] == (((v.lo as nat) / pow256((31 - i) as nat)) % 256) as u8);
            }
        }
        assert(r@ =~= be32_word(u256_val(*v)));
    }
    r
}

/// A 32-byte word holding a small count.
fn be32_of_usize(v: usize) -> (r: Vec<u8>)
    requires
        v <= u64::MAX,
    ensures
        r@ == be32_word(v as nat),
        r@.len() == 32,
{
    let word = U256 { hi: 0, lo: v as u128 };
    proof {
        assert(u256_val(word) == v as nat);
    }
    u256_be_bytes(&word)
}

/// ABI-encodes one dynamic byte string: offset word, length word, padded
/// bytes.
pub fn abi_encode_bytes_exec(s: &Vec<u8>) -> (r: Vec<u8>)
    requires
        s@.len() <= u64::MAX,
    ensures
        r@ == abi_encode_bytes(s@),
{
    let mut r = be32_of_usize(32);
    let mut len_word = be32_of_usize(s.len());
    r.append(&mut len_word);
    let mut i: usize = 0;
    while i < s.len()
        invariant
            0 <= i <= s@.len(),
            r@ =~= be32_word(32) + be32_word(s@.len()) + s@.subrange(0, i as int),
        decreases s.len() - i,
    {
        r.push(s[i]);
        i = i + 1;
    }
    let pad = if s.len() % 32 == 0 {
        0
    } else {
        32 - s.len() % 32
    };
    let mut j: usize = 0;
    while j < pad
        invariant
            0 <= j <= pad,
            pad == abi_pad_len(s@.len()),
            r@ =~= be32_word(32) + be32_word(s@.len()) + s@ + Seq::new(j as nat, |m: int| 0u8),
        decreases pad - j,
    {
        r.push(0u8);
        proof {
            assert(r@ =~= be32_word(32) + be32_word(s@.len()) + s@ + Seq::new(
                (j + 1) as nat,
                |m: int| 0u8,
            ));
        }
        j = j + 1;
    }
    proof {
        assert(r@ =~= abi_encode_bytes(s@));
    }
    r
}

} // verus!
