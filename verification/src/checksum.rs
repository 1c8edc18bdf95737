//! The internet-checksum engine: 16-bit one's-complement summation with
//! end-around carry over byte regions interpreted as network-order words,
//! in one- and two-region form, together with the laws that hold of it.

use vstd::prelude::*;
use vstd::arithmetic::div_mod::{
    lemma_add_mod_noop, lemma_fundamental_div_mod, lemma_mod_multiples_vanish, lemma_small_mod,
};

verus! {

/// 16-bit one's-complement addition: ordinary addition, with an extra 1
/// folded back in when the sum overflows 16 bits.
pub open spec fn oc_sum(a: u16, b: u16) -> u16 {
    if a + b > 0xFFFF {
        (a + b - 0xFFFF) as u16
    } else {
        (a + b) as u16
    }
}

/// The 16-bit word formed by two bytes read in network order (big-endian).
pub open spec fn be_word(hi: u8, lo: u8) -> u16 {
    (hi * 256 + lo) as u16
}

/// Byte swap of a 16-bit value.
pub open spec fn swap16(x: u16) -> u16 {
    ((x % 256) * 256 + x / 256) as u16
}

/// Byte swap of a 32-bit value.
pub open spec fn swap32(x: u32) -> u32 {
    ((x % 256) * 0x1000000 + (x / 256 % 256) * 0x10000 + (x / 0x10000 % 256) * 256
        + x / 0x1000000) as u32
}

/// Bitwise complement of a 16-bit value.
pub open spec fn not16(x: u16) -> u16 {
    (0xFFFF - x) as u16
}

/// Folds a byte region into the accumulator as a sequence of network-order
/// 16-bit words; a trailing odd byte counts as the high byte of a padded word.
pub open spec fn fold_region(b: Seq<u8>, acc: u16) -> u16
    decreases b.len(),
{
    if b.len() >= 2 {
        fold_region(b.skip(2), oc_sum(acc, be_word(b[0], b[1])))
    } else if b.len() == 1 {
        oc_sum(acc, be_word(b[0], 0))
    } else {
        acc
    }
}

/// The plain integer sum of the same words, used to reason about the fold
/// modulo 65535.
pub open spec fn sum_region(b: Seq<u8>) -> int
    decreases b.len(),
{
    if b.len() >= 2 {
        be_word(b[0], b[1]) + sum_region(b.skip(2))
    } else if b.len() == 1 {
        be_word(b[0], 0) as int
    } else {
        0
    }
}

/// The internet checksum of one region. The seed and the result are in
/// stored (byte-swapped) order; the fold itself works on host-order words:
/// the accumulator starts at the complement of the seed, and the complement
/// of the final accumulator is swapped back.
pub open spec fn checksum_spec(b: Seq<u8>, seed: u16) -> u16 {
    swap16(not16(fold_region(b, not16(swap16(seed)))))
}

/// The internet checksum over two regions folded into one accumulator,
/// the first region padded on its own when its length is odd.
pub open spec fn checksum2_spec(a: Seq<u8>, b: Seq<u8>, seed: u16) -> u16 {
    swap16(not16(fold_region(b, fold_region(a, not16(swap16(seed))))))
}

/// One's-complement 16-bit addition with end-around carry.
pub fn ones_complement_sum(a: u16, b: u16) -> (r: u16)
    ensures
        r == oc_sum(a, b),
{
    let s: u32 = a as u32 + b as u32;
    if s > 0xFFFF {
        (s - 0xFFFF) as u16
    } else {
        s as u16
    }
}

/// Byte swap of a 16-bit value.
pub fn swap_u16(x: u16) -> (r: u16)
    ensures
        r == swap16(x),
{
    (x % 256) * 256 + x / 256
}

/// Byte swap of a 32-bit value.
pub fn swap_u32(x: u32) -> (r: u32)
    ensures
        r == swap32(x),
{
    (x % 256) * 0x1000000 + (x / 256 % 256) * 0x10000 + (x / 0x10000 % 256) * 256 + x / 0x1000000
}

/// Folds a whole byte region into the accumulator, word by word.
fn fold_slice(b: &[u8], acc: u16) -> (r: u16)
    ensures
        r == fold_region(b@, acc),
{
    let n = b.len();
    let mut acc = acc;
    let ghost acc0 = acc;
    let mut i: usize = 0;
    proof {
        assert(b@.skip(0) =~= b@);
    }
    while i < n / 2
        invariant
            2 * i <= n,
            n == b@.len(),
            fold_region(b@, acc0) == fold_region(b@.skip(2 * i as int), acc),
        decreases n / 2 - i,
    {
        let w: u16 = (b[2 * i] as u16) * 256 + (b[2 * i + 1] as u16);
        proof {
            assert(b@.skip(2 * i as int)[0] == b@[2 * i as int]);
            assert(b@.skip(2 * i as int)[1] == b@[2 * i as int + 1]);
            assert(b@.skip(2 * i as int).skip(2) =~= b@.skip(2 * (i + 1) as int));
        }
        acc = ones_complement_sum(acc, w);
        i = i + 1;
    }
    if n % 2 == 1 {
        let w: u16 = (b[n - 1] as u16) * 256;
        proof {
            assert(b@.skip(2 * i as int).len() == 1);
            assert(b@.skip(2 * i as int)[0] == b@[n - 1]);
        }
        acc = ones_complement_sum(acc, w);
    } else {
        proof {
            assert(b@.skip(2 * i as int).len() == 0);
        }
    }
    acc
}

/// The running one's-complement sum of the full words of a region, from a
/// zero accumulator; a trailing odd byte is ignored and nothing is
/// complemented.
pub fn network_partial_checksum(b: &[u8]) -> (r: u16)
    ensures
        r == fold_region(b@.take(2 * (b@.len() as int / 2)), 0),
{
    let n = b.len();
    let even = vstd::slice::slice_subrange(b, 0, n - n % 2);
    proof {
        assert(b@.subrange(0, n - n % 2) =~= b@.take(2 * (b@.len() as int / 2)));
    }
    fold_slice(even, 0)
}

/// The internet checksum of one byte region. `checksum` seeds the fold with
/// its complement, so that computing over a region that embeds that very
/// value at the checksum field cancels the field's own contribution.
pub fn network_checksum(b: &[u8], checksum: u16) -> (r: u16)
    ensures
        r == checksum_spec(b@, checksum),
{
    let acc = fold_slice(b, 0xFFFF - swap_u16(checksum));
    swap_u16(0xFFFF - acc)
}

/// The internet checksum over two regions folded into a single accumulator,
/// as the UDP checksum needs for the segment and the pseudo-header.
pub fn network_checksum_2part(a: &[u8], b: &[u8], checksum: u16) -> (r: u16)
    ensures
        r == checksum2_spec(a@, b@, checksum),
{
    let acc = fold_slice(b, fold_slice(a, 0xFFFF - swap_u16(checksum)));
    swap_u16(0xFFFF - acc)
}

/// Swapping the bytes of a 16-bit value twice gives the value back.
pub proof fn lemma_swap16_involution(x: u16)
    ensures
        swap16(swap16(x)) == x,
{
    let y = swap16(x);
    assert(y == (x % 256) * 256 + x / 256);
    lemma_mod_multiples_vanish((x % 256) as int, (x / 256) as int, 256);
    lemma_small_mod((x / 256) as nat, 256);
    assert(y % 256 == x / 256);
    lemma_fundamental_div_mod(y as int, 256);
    lemma_fundamental_div_mod(x as int, 256);
    assert(y / 256 == x % 256);
}

/// Swapping the bytes of a 32-bit value twice gives the value back.
pub proof fn lemma_swap32_involution(x: u32)
    ensures
        swap32(swap32(x)) == x,
{
    let y = swap32(x);
    assert(((y % 256) * 0x1000000 + (y / 256 % 256) * 0x10000 + (y / 0x10000 % 256) * 256
        + y / 0x1000000) as u32 == x) by (bit_vector)
        requires
            y == ((x % 256) * 0x1000000 + (x / 256 % 256) * 0x10000 + (x / 0x10000 % 256) * 256
                + x / 0x1000000) as u32,
    ;
}

/// One's-complement addition agrees with plain addition modulo 65535.
proof fn lemma_oc_sum_mod(a: u16, b: u16)
    ensures
        (oc_sum(a, b) as int) % 65535 == (a + b) % 65535,
{
    if a + b > 0xFFFF {
        lemma_mod_multiples_vanish(1, oc_sum(a, b) as int, 65535);
    }
}

/// The fold of a region agrees with the accumulator plus the plain word sum,
/// modulo 65535.
proof fn lemma_fold_region_mod(b: Seq<u8>, acc: u16)
    ensures
        (fold_region(b, acc) as int) % 65535 == (acc + sum_region(b)) % 65535,
    decreases b.len(),
{
    if b.len() >= 2 {
        let w = be_word(b[0], b[1]);
        let acc2 = oc_sum(acc, w);
        let s2 = sum_region(b.skip(2));
        lemma_oc_sum_mod(acc, w);
        lemma_fold_region_mod(b.skip(2), acc2);
        lemma_add_mod_noop(acc2 as int, s2, 65535);
        lemma_add_mod_noop(acc + w, s2, 65535);
    } else if b.len() == 1 {
        lemma_oc_sum_mod(acc, be_word(b[0], 0));
    }
}

/// The word sum of a region is never negative.
proof fn lemma_sum_region_nonneg(b: Seq<u8>)
    ensures
        sum_region(b) >= 0,
    decreases b.len(),
{
    if b.len() >= 2 {
        lemma_sum_region_nonneg(b.skip(2));
    }
}

/// A fold that starts from a nonzero accumulator never reaches zero.
proof fn lemma_fold_region_nonzero(b: Seq<u8>, acc: u16)
    requires
        acc != 0,
    ensures
        fold_region(b, acc) != 0,
    decreases b.len(),
{
    if b.len() >= 2 {
        lemma_fold_region_nonzero(b.skip(2), oc_sum(acc, be_word(b[0], b[1])));
    }
}

/// The weight a byte carries in the word sum: a byte at an even position is
/// the high byte of its word.
spec fn byte_weight(i: int) -> int {
    if i % 2 == 0 {
        256
    } else {
        1
    }
}

/// Changing one byte changes the word sum by the byte difference times its
/// weight.
proof fn lemma_sum_region_update(b: Seq<u8>, i: int, v: u8)
    requires
        0 <= i < b.len(),
    ensures
        sum_region(b.update(i, v)) == sum_region(b) + (v - b[i]) * byte_weight(i),
    decreases b.len(),
{
    let b2 = b.update(i, v);
    if b.len() == 1 {
        assert(b2[0] == v);
    } else if i == 0 {
        assert(b2[0] == v && b2[1] == b[1]);
        assert(b2.skip(2) =~= b.skip(2));
    } else if i == 1 {
        assert(b2[0] == b[0] && b2[1] == v);
        assert(b2.skip(2) =~= b.skip(2));
    } else {
        assert(b2[0] == b[0] && b2[1] == b[1]);
        assert(b2.skip(2) =~= b.skip(2).update(i - 2, v));
        lemma_sum_region_update(b.skip(2), i - 2, v);
        assert((i - 2) % 2 == i % 2) by {
            lemma_mod_multiples_vanish(-1, i, 2);
        }
    }
}

/// Folding one region after another equals folding their concatenation,
/// provided the first region has even length, so that no padding byte is
/// inserted between the two.
proof fn lemma_fold_concat(a: Seq<u8>, b: Seq<u8>, acc: u16)
    requires
        a.len() % 2 == 0,
    ensures
        fold_region(a + b, acc) == fold_region(b, fold_region(a, acc)),
    decreases a.len(),
{
    if a.len() == 0 {
        assert(a + b =~= b);
    } else {
        assert((a + b)[0] == a[0] && (a + b)[1] == a[1]);
        assert((a + b).skip(2) =~= a.skip(2) + b);
        lemma_fold_concat(a.skip(2), b, oc_sum(acc, be_word(a[0], a[1])));
    }
}

/// The two-region checksum equals the one-region checksum of the
/// concatenation whenever the first region has even length. (With an odd
/// first region the two differ: the odd byte is padded in its own region.)
pub proof fn lemma_two_part_eq_concat(a: Seq<u8>, b: Seq<u8>, seed: u16)
    requires
        a.len() % 2 == 0,
    ensures
        checksum2_spec(a, b, seed) == checksum_spec(a + b, seed),
{
    lemma_fold_concat(a, b, not16(swap16(seed)));
}

/// A swapped value is zero only when the value itself is.
proof fn lemma_swap16_zero(x: u16)
    ensures
        swap16(x) == 0 <==> x == 0,
{
    lemma_swap16_involution(x);
}

/// A region that validates (its checksum over seed zero computes to zero)
/// has a word sum that is a multiple of 65535, and conversely; the fold from
/// the all-ones accumulator never collapses to the zero representative.
proof fn lemma_validates_iff_sum_vanishes(b: Seq<u8>)
    ensures
        checksum_spec(b, 0) == 0 <==> sum_region(b) % 65535 == 0,
{
    lemma_sum_region_nonneg(b);
    let f = fold_region(b, 0xFFFF);
    lemma_fold_region_mod(b, 0xFFFF);
    lemma_fold_region_nonzero(b, 0xFFFF);
    lemma_add_mod_noop(0xFFFF, sum_region(b), 65535);
    assert((f as int) % 65535 == sum_region(b) % 65535);
    lemma_swap16_zero(not16(f));
    if sum_region(b) % 65535 == 0 {
        lemma_small_mod((f - 65535) as nat, 65535);
        lemma_mod_multiples_vanish(1, f - 65535, 65535);
        assert(f == 0xFFFF);
    } else {
        lemma_small_mod(f as nat, 65535);
        assert(f != 0xFFFF);
    }
}

/// A region whose checksum over seed zero computes to zero no longer does so
/// after any one of its bytes is changed: the internet checksum detects every
/// single-byte corruption.
pub proof fn lemma_corruption_detected(b: Seq<u8>, i: int, v: u8)
    requires
        0 <= i < b.len(),
        v != b[i],
        checksum_spec(b, 0) == 0,
    ensures
        checksum_spec(b.update(i, v), 0) != 0,
{
    let b2 = b.update(i, v);
    let w = byte_weight(i);
    lemma_validates_iff_sum_vanishes(b);
    lemma_validates_iff_sum_vanishes(b2);
    if checksum_spec(b2, 0) == 0 {
        let s = sum_region(b);
        let s2 = sum_region(b2);
        lemma_sum_region_update(b, i, v);
        assert(s2 + b[i] * w == s + v * w);
        lemma_sum_region_nonneg(b);
        lemma_sum_region_nonneg(b2);
        lemma_add_mod_noop(s2, b[i] * w, 65535);
        lemma_add_mod_noop(s, v * w, 65535);
        assert((b[i] * w) % 65535 == (v * w) % 65535);
        lemma_small_mod((b[i] * w) as nat, 65535);
        lemma_small_mod((v * w) as nat, 65535);
        assert(b[i] * w == v * w);
        assert(false);
    }
}

/// Writing the checksum computed over a region whose checksum field holds
/// zero back into that field (low byte first) makes the region validate:
/// its checksum over seed zero then computes to zero.
pub proof fn lemma_stored_checksum_validates(b: Seq<u8>, i: int)
    requires
        0 <= i,
        i % 2 == 0,
        i + 2 <= b.len(),
        b[i] == 0,
        b[i + 1] == 0,
    ensures
        ({
            let c = checksum_spec(b, 0);
            checksum_spec(b.update(i, (c % 256) as u8).update(i + 1, (c / 256) as u8), 0) == 0
        }),
{
    let f = fold_region(b, 0xFFFF);
    let y = not16(f);
    let c = checksum_spec(b, 0);
    assert(c == swap16(y));
    // The two stored bytes of the computed checksum are the two halves of
    // the host-order complement of the fold.
    assert(c == (y % 256) * 256 + y / 256);
    lemma_mod_multiples_vanish((y % 256) as int, (y / 256) as int, 256);
    lemma_small_mod((y / 256) as nat, 256);
    assert(c % 256 == y / 256);
    lemma_fundamental_div_mod(c as int, 256);
    lemma_fundamental_div_mod(y as int, 256);
    assert(c / 256 == y % 256);
    let b1 = b.update(i, (c % 256) as u8);
    let b2 = b1.update(i + 1, (c / 256) as u8);
    lemma_sum_region_update(b, i, (c % 256) as u8);
    assert(b1[i + 1] == 0);
    lemma_sum_region_update(b1, i + 1, (c / 256) as u8);
    assert((i + 1) % 2 == 1) by {
        lemma_mod_multiples_vanish(-1, i + 1, 2);
    }
    let s = sum_region(b);
    assert(sum_region(b2) == s + (y / 256) * 256 + y % 256);
    assert(sum_region(b2) == s + y);
    // The region validated iff its sum vanished; adding the complement of a
    // fold congruent to the sum completes it to a multiple of 65535.
    lemma_fold_region_mod(b, 0xFFFF);
    lemma_add_mod_noop(0xFFFF, s, 65535);
    assert((f as int) % 65535 == s % 65535);
    lemma_sum_region_nonneg(b);
    lemma_add_mod_noop(s, 65535 - f, 65535);
    lemma_add_mod_noop(f as int, 65535 - f, 65535);
    assert((s + y) % 65535 == (f + 65535 - f) % 65535);
    assert((s + y) % 65535 == 0) by {
        lemma_mod_multiples_vanish(1, 0, 65535);
    }
    lemma_validates_iff_sum_vanishes(b2);
}

/// Writing the two-region checksum computed over a first region whose
/// checksum field holds zero back into that field (low byte first) makes
/// the pair of regions validate: their checksum over seed zero then
/// computes to zero.
pub proof fn lemma_stored_checksum2_validates(a: Seq<u8>, b: Seq<u8>, i: int)
    requires
        0 <= i,
        i % 2 == 0,
        i + 2 <= a.len(),
        a[i] == 0,
        a[i + 1] == 0,
    ensures
        ({
            let c = checksum2_spec(a, b, 0);
            checksum2_spec(a.update(i, (c % 256) as u8).update(i + 1, (c / 256) as u8), b, 0)
                == 0
        }),
{
    let fa = fold_region(a, 0xFFFF);
    let f = fold_region(b, fa);
    let y = not16(f);
    let c = checksum2_spec(a, b, 0);
    assert(c == swap16(y));
    // The two stored bytes of the computed checksum are the two halves of
    // the host-order complement of the fold.
    assert(c == (y % 256) * 256 + y / 256);
    lemma_mod_multiples_vanish((y % 256) as int, (y / 256) as int, 256);
    lemma_small_mod((y / 256) as nat, 256);
    assert(c % 256 == y / 256);
    lemma_fundamental_div_mod(c as int, 256);
    lemma_fundamental_div_mod(y as int, 256);
    assert(c / 256 == y % 256);
    let a1 = a.update(i, (c % 256) as u8);
    let a2 = a1.update(i + 1, (c / 256) as u8);
    lemma_sum_region_update(a, i, (c % 256) as u8);
    assert(a1[i + 1] == 0);
    lemma_sum_region_update(a1, i + 1, (c / 256) as u8);
    assert((i + 1) % 2 == 1) by {
        lemma_mod_multiples_vanish(-1, i + 1, 2);
    }
    let sa = sum_region(a);
    let sb = sum_region(b);
    assert(sum_region(a2) == sa + (y / 256) * 256 + y % 256);
    assert(sum_region(a2) == sa + y);
    lemma_sum_region_nonneg(a);
    lemma_sum_region_nonneg(b);
    // The original fold is congruent to the plain word sums.
    lemma_fold_region_mod(a, 0xFFFF);
    lemma_fold_region_mod(b, fa);
    lemma_add_mod_noop(fa as int, sb, 65535);
    lemma_add_mod_noop(0xFFFF + sa, sb, 65535);
    lemma_mod_multiples_vanish(1, sa + sb, 65535);
    assert((f as int) % 65535 == (sa + sb) % 65535);
    // The completed fold gains exactly the complement of the original one.
    let fa2 = fold_region(a2, 0xFFFF);
    let f2 = fold_region(b, fa2);
    lemma_fold_region_mod(a2, 0xFFFF);
    lemma_fold_region_mod(b, fa2);
    lemma_add_mod_noop(fa2 as int, sb, 65535);
    lemma_add_mod_noop(0xFFFF + sa + y, sb, 65535);
    lemma_mod_multiples_vanish(1, sa + y + sb, 65535);
    assert((f2 as int) % 65535 == (sa + sb + y) % 65535);
    lemma_add_mod_noop(sa + sb, 65535 - f, 65535);
    lemma_add_mod_noop(f as int, 65535 - f, 65535);
    lemma_mod_multiples_vanish(1, 0, 65535);
    assert((f2 as int) % 65535 == 0);
    lemma_fold_region_nonzero(a2, 0xFFFF);
    lemma_fold_region_nonzero(b, fa2);
    if f2 != 0xFFFF {
        lemma_small_mod(f2 as nat, 65535);
        assert(false);
    }
}

} // verus!
