//! The Internet checksum: a one's-complement sum of the 16-bit big-endian
//! words of a byte string, used by the IPv4 header and by ICMP messages.
//! An odd trailing byte counts as the high byte of a final word.

use vstd::prelude::*;
use vstd::arithmetic::div_mod::{lemma_fundamental_div_mod, lemma_mod_multiples_vanish};
use crate::bytes::be16;

verus! {

/// The 16-bit word starting at byte `2 * i`, zero-padded at the end.
pub open spec fn word_at(b: Seq<u8>, i: int) -> int {
    if 2 * i + 1 < b.len() {
        256 * b[2 * i] + b[2 * i + 1]
    } else if 2 * i < b.len() {
        256 * b[2 * i]
    } else {
        0
    }
}

/// How many 16-bit words `b` holds, an odd trailing byte padded to a word.
pub open spec fn num_words(b: Seq<u8>) -> int {
    (b.len() + 1) as int / 2
}

/// The plain integer sum of the first `n` words of `b`.
pub open spec fn sum_words(b: Seq<u8>, n: int) -> int
    decreases n,
{
    if n <= 0 {
        0
    } else {
        sum_words(b, n - 1) + word_at(b, n - 1)
    }
}

/// Folds the carries of a word sum back in until the value fits 16 bits.
pub open spec fn fold16(s: int) -> int
    decreases s,
{
    if s > 0xFFFF {
        fold16(s % 0x10000 + s / 0x10000)
    } else {
        s
    }
}

/// The one's-complement sum of all words of `b`, folded to 16 bits.
pub open spec fn onec_sum(b: Seq<u8>) -> int {
    fold16(sum_words(b, num_words(b)))
}

/// The checksum over `b`: the one's complement of the folded word sum.
/// `b` is the message with its checksum field set to zero.
pub open spec fn checksum_of(b: Seq<u8>) -> u16 {
    (0xFFFF - onec_sum(b)) as u16
}

/// A message whose words (checksum field included) fold to `0xFFFF` passes
/// the standard receiver-side validation.
pub open spec fn checksum_valid(b: Seq<u8>) -> bool {
    onec_sum(b) == 0xFFFF
}

proof fn lemma_sum_words_nonneg(b: Seq<u8>, n: int)
    ensures
        0 <= sum_words(b, n),
        sum_words(b, n) <= if n >= 0 { 0xFFFF * n } else { 0 },
    decreases n,
{
    if n > 0 {
        lemma_sum_words_nonneg(b, n - 1);
    }
}

proof fn lemma_fold16_bounds(s: int)
    requires
        0 <= s,
    ensures
        0 <= fold16(s) <= 0xFFFF,
        s > 0 ==> fold16(s) > 0,
    decreases s,
{
    if s > 0xFFFF {
        lemma_fundamental_div_mod(s, 0x10000);
        lemma_fold16_bounds(s % 0x10000 + s / 0x10000);
    }
}

proof fn lemma_fold16_congruent(s: int)
    requires
        0 <= s,
    ensures
        fold16(s) % 0xFFFF == s % 0xFFFF,
    decreases s,
{
    if s > 0xFFFF {
        let s2 = s % 0x10000 + s / 0x10000;
        lemma_fundamental_div_mod(s, 0x10000);
        assert(s == s2 + 0xFFFF * (s / 0x10000));
        lemma_mod_multiples_vanish(s / 0x10000, s2, 0xFFFF);
        lemma_fold16_congruent(s2);
    }
}

/// A positive word sum that is a multiple of `0xFFFF` folds to exactly
/// `0xFFFF`: the receiver-side validation value.
proof fn lemma_fold16_multiple(s: int)
    requires
        0 < s,
        s % 0xFFFF == 0,
    ensures
        fold16(s) == 0xFFFF,
{
    lemma_fold16_bounds(s);
    lemma_fold16_congruent(s);
    let f = fold16(s);
    if f < 0xFFFF {
        assert(f % 0xFFFF == f);
    }
}

/// Replacing the (zeroed) word at index `k` of `b` by the value `c` adds `c`
/// to the word sum. `b2` is `b` with bytes `2k` and `2k + 1` replaced by the
/// big-endian encoding of `c`.
proof fn lemma_sum_words_patch(b: Seq<u8>, b2: Seq<u8>, k: int, c: u16, n: int)
    requires
        b.len() == b2.len(),
        0 <= k,
        2 * k + 1 < b.len(),
        b[2 * k] == 0,
        b[2 * k + 1] == 0,
        b2[2 * k] == (c / 256) as u8,
        b2[2 * k + 1] == (c % 256) as u8,
        forall|j: int| 0 <= j < b.len() && j != 2 * k && j != 2 * k + 1 ==> b2[j] == b[j],
    ensures
        n <= k ==> sum_words(b2, n) == sum_words(b, n),
        n > k ==> sum_words(b2, n) == sum_words(b, n) + c,
    decreases n,
{
    if n > 0 {
        lemma_sum_words_patch(b, b2, k, c, n - 1);
    }
}

/// Computes the Internet checksum of `data`, which must already carry a zero
/// in its checksum field.
pub fn internet_checksum(data: &Vec<u8>) -> (r: u16)
    requires
        data@.len() <= 0xFFFF,
    ensures
        r == checksum_of(data@),
        r == 0xFFFF - onec_sum(data@),
{
    let n = data.len();
    let mut sum: u64 = 0;
    let mut w: usize = 0;
    proof {
        lemma_sum_words_nonneg(data@, num_words(data@));
    }
    while 2 * w < n
        invariant
            n == data@.len(),
            n <= 0xFFFF,
            2 * w <= n + 1,
            sum == sum_words(data@, w as int),
            0 <= sum <= 0xFFFF * w,
        decreases n + 1 - 2 * w,
    {
        proof {
            lemma_sum_words_nonneg(data@, w as int);
        }
        let hi = data[2 * w] as u64;
        let lo = if 2 * w + 1 < n {
            data[2 * w + 1] as u64
        } else {
            0u64
        };
        sum = sum + 256 * hi + lo;
        w = w + 1;
    }
    proof {
        assert(w as int == num_words(data@));
    }
    let ghost total = sum_words(data@, num_words(data@));
    while sum > 0xFFFF
        invariant
            0 <= sum,
            fold16(sum as int) == fold16(total),
        decreases sum,
    {
        sum = sum % 0x10000 + sum / 0x10000;
    }
    proof {
        assert(fold16(sum as int) == sum as int);
        lemma_sum_words_nonneg(data@, num_words(data@));
        lemma_fold16_bounds(total);
    }
    0xFFFF - (sum as u16)
}

proof fn lemma_fold16_le(s: int)
    requires
        0 <= s,
    ensures
        fold16(s) <= s,
    decreases s,
{
    if s > 0xFFFF {
        lemma_fundamental_div_mod(s, 0x10000);
        lemma_fold16_le(s % 0x10000 + s / 0x10000);
    }
}

proof fn lemma_congruent_diff(a: int, b: int, m: int)
    requires
        0 < m,
        a % m == b % m,
    ensures
        (a - b) % m == 0,
{
    lemma_fundamental_div_mod(a, m);
    lemma_fundamental_div_mod(b, m);
    assert(a - b == m * (a / m - b / m)) by (nonlinear_arith)
        requires
            a == m * (a / m) + a % m,
            b == m * (b / m) + b % m,
            a % m == b % m,
    ;
    lemma_mod_multiples_vanish(a / m - b / m, 0, m);
}

/// Law: writing the computed checksum of a zero-checksum message back into
/// its checksum word (word index `k`) yields a message that passes the
/// receiver-side validation: its words fold to exactly `0xFFFF`.
pub proof fn lemma_patched_checksum_validates(b: Seq<u8>, b2: Seq<u8>, k: int)
    requires
        b.len() == b2.len(),
        0 <= k,
        2 * k + 1 < b.len(),
        b[2 * k] == 0,
        b[2 * k + 1] == 0,
        b2[2 * k] == (checksum_of(b) / 256) as u8,
        b2[2 * k + 1] == (checksum_of(b) % 256) as u8,
        forall|j: int| 0 <= j < b.len() && j != 2 * k && j != 2 * k + 1 ==> b2[j] == b[j],
    ensures
        checksum_valid(b2),
{
    let n = num_words(b);
    let s0 = sum_words(b, n);
    let f = fold16(s0);
    lemma_sum_words_nonneg(b, n);
    lemma_fold16_bounds(s0);
    lemma_fold16_le(s0);
    lemma_fold16_congruent(s0);
    let c = checksum_of(b) as int;
    assert(c == 0xFFFF - f);
    lemma_sum_words_patch(b, b2, k, checksum_of(b), n);
    let s2 = sum_words(b2, n);
    assert(s2 == (s0 - f) + 0xFFFF);
    lemma_congruent_diff(s0, f, 0xFFFF);
    lemma_mod_multiples_vanish(1, s0 - f, 0xFFFF);
    assert(s2 % 0xFFFF == 0);
    lemma_fold16_multiple(s2);
}

} // verus!
