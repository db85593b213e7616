//! The internet one's-complement checksum used by TCP.
//!
//! The data is read as big-endian 16-bit words (a trailing odd byte is
//! padded with a zero low byte), the words are summed, the carries above
//! 16 bits are folded back in, and the result is complemented.

use vstd::prelude::*;

verus! {

/// The plain sum of the big-endian 16-bit words of `b`, a trailing odd
/// byte acting as the high byte of a final zero-padded word.
pub open spec fn checksum_sum(b: Seq<u8>) -> int
    decreases b.len(),
{
    if b.len() == 0 {
        0
    } else if b.len() % 2 == 1 {
        checksum_sum(b.take(b.len() - 1)) + (b[b.len() - 1] as int) * 0x100
    } else {
        checksum_sum(b.take(b.len() - 2)) + (b[b.len() - 2] as int) * 0x100 + (b[b.len()
            - 1] as int)
    }
}

/// Folds the carries of a word sum back into 16 bits. Two rounds are
/// enough for any sum below 2^32.
pub open spec fn fold_carries(n: int) -> int {
    let m = n % 0x10000 + n / 0x10000;
    m % 0x10000 + m / 0x10000
}

/// The checksum of `b`: the folded word sum, complemented.
pub open spec fn spec_checksum(b: Seq<u8>) -> u16 {
    (0xFFFF - fold_carries(checksum_sum(b))) as u16
}

/// The word sum of `n` bytes lies between 0 and `0xFFFF` per word.
pub proof fn lemma_checksum_sum_bounds(b: Seq<u8>)
    ensures
        0 <= checksum_sum(b) <= 0xFFFF * ((b.len() + 1) / 2),
    decreases b.len(),
{
    if b.len() == 0 {
    } else if b.len() % 2 == 1 {
        lemma_checksum_sum_bounds(b.take(b.len() - 1));
    } else {
        lemma_checksum_sum_bounds(b.take(b.len() - 2));
    }
}

/// Computes the internet checksum of `b`.
pub fn internet_checksum(b: &Vec<u8>) -> (r: u16)
    requires
        b@.len() <= 0x2_0000,
    ensures
        r == spec_checksum(b@),
{
    let n: usize = b.len();
    let mut sum: u64 = 0;
    let mut i: usize = 0;
    while i + 2 <= n
        invariant
            i % 2 == 0,
            i <= n,
            n == b@.len() <= 0x2_0000,
            sum == checksum_sum(b@.take(i as int)),
            sum <= 0xFFFF * ((i + 1) / 2),
        decreases n - i,
    {
        let w: u64 = (b[i] as u64) * 0x100 + (b[i + 1] as u64);
        proof {
            let t = b@.take(i + 2);
            assert(t.take(i as int) =~= b@.take(i as int));
            assert(t[i as int] == b@[i as int]);
            assert(t[i + 1] == b@[i + 1]);
            lemma_checksum_sum_bounds(b@.take(i + 2));
        }
        sum = sum + w;
        i = i + 2;
    }
    if i < n {
        proof {
            let t = b@.take(n as int);
            assert(t =~= b@);
            assert(t.take(i as int) =~= b@.take(i as int));
            lemma_checksum_sum_bounds(b@);
        }
        sum = sum + (b[i] as u64) * 0x100;
    } else {
        proof {
            assert(b@.take(n as int) =~= b@);
        }
    }
    proof {
        lemma_checksum_sum_bounds(b@);
        assert(sum < 0x1_0000_0000) by {
            assert(0xFFFF * ((b@.len() + 1) / 2) < 0x1_0000_0000);
        }
    }
    let m: u64 = sum % 0x10000 + sum / 0x10000;
    let k: u64 = m % 0x10000 + m / 0x10000;
    assert(k <= 0xFFFF);
    0xFFFFu16 - (k as u16)
}

} // verus!
