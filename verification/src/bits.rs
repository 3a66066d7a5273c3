//! Powers of two: the sizes of traces and tables.

use vstd::arithmetic::power2::{
    lemma_pow2_pos, lemma_pow2_strictly_increases, lemma_pow2_unfold, pow2,
};
use vstd::prelude::*;

verus! {

/// The number of rows that a packed value holds.
pub const N_LANES: usize = 16;

/// The exponent of the smallest power of two that is at least `n`.
pub open spec fn ceil_log2(n: nat) -> nat
    decreases n,
{
    if n <= 1 {
        0
    } else {
        1 + ceil_log2((n + 1) / 2)
    }
}

/// The exponent of the largest power of two that is at most `n`; zero for zero.
pub open spec fn floor_log2(n: nat) -> nat
    decreases n,
{
    if n <= 1 {
        0
    } else {
        1 + floor_log2(n / 2)
    }
}

/// The smallest power of two that is at least `n`.
pub open spec fn next_pow2(n: nat) -> nat {
    pow2(ceil_log2(n))
}

/// The number of rows of a trace with `n` inputs that is filled pack by pack.
pub open spec fn padded_rows(n: nat) -> nat {
    if next_pow2(n) < N_LANES {
        N_LANES as nat
    } else {
        next_pow2(n)
    }
}

/// The logarithm of the number of rows of a trace with `n` inputs that is filled pack by pack.
pub open spec fn padded_log(n: nat) -> u32 {
    floor_log2(padded_rows(n)) as u32
}

/// `ceil_log2` names the least exponent whose power of two reaches `n`: the power reaches `n`,
/// and the one below it does not.
pub proof fn lemma_ceil_log2(n: nat)
    ensures
        n <= next_pow2(n),
        ceil_log2(n) > 0 ==> pow2((ceil_log2(n) - 1) as nat) < n,
    decreases n,
{
    lemma_pow2_pos(ceil_log2(n));
    if n > 1 {
        let h = (n + 1) / 2;
        lemma_ceil_log2(h);
        lemma_pow2_unfold(ceil_log2(n));
        if ceil_log2(h) > 0 {
            lemma_pow2_unfold(ceil_log2(h));
        } else {
            vstd::arithmetic::power::lemma_pow0(2);
        }
    }
}

/// The logarithm of a power of two is its exponent.
pub proof fn lemma_floor_log2_of_pow2(k: nat)
    ensures
        floor_log2(pow2(k)) == k,
    decreases k,
{
    vstd::arithmetic::power::lemma_pow0(2);
    if k > 0 {
        lemma_pow2_unfold(k);
        lemma_pow2_pos((k - 1) as nat);
        lemma_floor_log2_of_pow2((k - 1) as nat);
    }
}

/// Padding to the next power of two adds fewer rows than there were: the padding rows can always
/// be read from the front of the data.
pub proof fn lemma_padding_is_shorter(n: nat)
    requires
        n > 0,
    ensures
        n <= next_pow2(n) < 2 * n,
{
    lemma_ceil_log2(n);
    if ceil_log2(n) > 0 {
        lemma_pow2_unfold(ceil_log2(n));
    } else {
        vstd::arithmetic::power::lemma_pow0(2);
    }
}

/// A trace that is filled pack by pack has at least one pack of rows, holds every input, and its
/// number of rows is a power of two.
pub proof fn lemma_padded_rows(n: nat)
    ensures
        padded_rows(n) >= n,
        padded_rows(n) >= N_LANES,
        padded_rows(n) == pow2(floor_log2(padded_rows(n))),
        floor_log2(padded_rows(n)) == (if ceil_log2(n) < 4 {
            4
        } else {
            ceil_log2(n)
        }),
{
    lemma_ceil_log2(n);
    vstd::arithmetic::power2::lemma2_to64();
    let c = ceil_log2(n);
    lemma_floor_log2_of_pow2(4);
    lemma_floor_log2_of_pow2(c);
    if c < 4 {
        lemma_pow2_strictly_increases(c, 4);
    } else if c > 4 {
        lemma_pow2_strictly_increases(4, c);
    }
}

/// From two to two to the power of thirty rows, the logarithm is from one to thirty, and it is
/// the one that the padded number of rows has.
pub proof fn lemma_small_ceil_log2(n: nat)
    requires
        2 <= n <= 0x4000_0000,
    ensures
        0 < ceil_log2(n) <= 30,
        floor_log2(next_pow2(n)) == ceil_log2(n),
        n <= pow2(ceil_log2(n)) <= 0x4000_0000,
{
    lemma_ceil_log2(n);
    lemma_padding_is_shorter(n);
    lemma_floor_log2_of_pow2(ceil_log2(n));
    vstd::arithmetic::power2::lemma2_to64();
    let k = ceil_log2(n);
    if k > 30 {
        if k > 31 {
            vstd::arithmetic::power2::lemma_pow2_strictly_increases(31, k);
        }
    }
}

/// Returns two to the power of `log_size`.
pub fn exp2(log_size: u32) -> (size: usize)
    requires
        log_size < 32,
    ensures
        size == pow2(log_size as nat),
{
    proof {
        lemma_pow2_bound(log_size as nat);
        vstd::bits::lemma_usize_shl_is_mul(1, log_size as usize);
    }
    1usize << log_size
}

/// A power of two below the thirty-second fits into a machine word.
pub proof fn lemma_pow2_bound(k: nat)
    requires
        k < 32,
    ensures
        0 < pow2(k) <= 0x8000_0000,
{
    lemma_pow2_pos(k);
    vstd::arithmetic::power2::lemma2_to64();
    if k < 31 {
        lemma_pow2_strictly_increases(k, 31);
    }
}

/// Returns the smallest power of two that is at least `n`.
pub fn next_power_of_two(n: usize) -> (p: usize)
    requires
        n <= 0x8000_0000,
    ensures
        p == next_pow2(n as nat),
        ceil_log2(n as nat) < 32,
{
    let mut p: usize = 1;
    let ghost mut k: nat = 0;
    proof {
        lemma_ceil_log2(n as nat);
        vstd::arithmetic::power::lemma_pow0(2);
        vstd::arithmetic::power2::lemma2_to64();
        if ceil_log2(n as nat) > 32 {
            lemma_pow2_strictly_increases(31, (ceil_log2(n as nat) - 1) as nat);
        }
    }
    while p < n
        invariant
            p == pow2(k),
            k <= ceil_log2(n as nat) < 32,
            n <= 0x8000_0000,
        decreases 2 * n - p,
    {
        proof {
            let c = ceil_log2(n as nat);
            lemma_ceil_log2(n as nat);
            lemma_pow2_unfold(k + 1);
            lemma_pow2_bound(c);
            lemma_pow2_pos(k);
            assert(k != c);
            if k + 1 < c {
                lemma_pow2_strictly_increases(k + 1, c);
            }
            k = k + 1;
        }
        p = p * 2;
    }
    proof {
        let c = ceil_log2(n as nat);
        lemma_ceil_log2(n as nat);
        if k < c {
            if k < c - 1 {
                lemma_pow2_strictly_increases(k, (c - 1) as nat);
            }
        }
    }
    p
}

/// Returns the exponent of the largest power of two that is at most `n`.
pub fn ilog2(n: usize) -> (k: u32)
    requires
        n > 0,
    ensures
        k == floor_log2(n as nat),
        k < 64,
{
    let mut k: u32 = 0;
    let mut rest: usize = n;
    proof {
        vstd::arithmetic::power2::lemma2_to64_rest();
        lemma_floor_log2_bound(n as nat, 64);
    }
    while rest > 1
        invariant
            rest >= 1,
            k + floor_log2(rest as nat) == floor_log2(n as nat),
            floor_log2(n as nat) < 64,
        decreases rest,
    {
        rest = rest / 2;
        k = k + 1;
    }
    k
}

/// Below a power of two the logarithm stays below the exponent.
pub proof fn lemma_floor_log2_bound(n: nat, k: nat)
    requires
        n < pow2(k),
        k > 0,
    ensures
        floor_log2(n) < k,
    decreases k,
{
    if n > 1 {
        lemma_pow2_unfold(k);
        if k == 1 {
            vstd::arithmetic::power::lemma_pow0(2);
        } else {
            lemma_floor_log2_bound(n / 2, (k - 1) as nat);
        }
    }
}

/// Returns the number of rows of a trace with `n` inputs that is filled pack by pack.
pub fn padded_size(n: usize) -> (size: usize)
    requires
        n <= 0x8000_0000,
    ensures
        size == padded_rows(n as nat),
        ceil_log2(n as nat) < 32,
{
    let p = next_power_of_two(n);
    if p < N_LANES {
        N_LANES
    } else {
        p
    }
}

/// A trace with up to two to the power of thirty inputs has a logarithm from four to thirty, and
/// its number of rows is the power of it.
pub proof fn lemma_padded_log(n: nat)
    requires
        n <= 0x4000_0000,
    ensures
        4 <= padded_log(n) <= 30,
        floor_log2(padded_rows(n)) == padded_log(n),
        pow2(padded_log(n) as nat) == padded_rows(n),
        padded_rows(n) <= 0x4000_0000,
{
    lemma_padded_rows(n);
    lemma_ceil_log2(n);
    vstd::arithmetic::power2::lemma2_to64();
    let c = ceil_log2(n);
    if c > 30 {
        if c > 31 {
            lemma_pow2_strictly_increases(30, (c - 1) as nat);
        }
    } else if c < 30 {
        lemma_pow2_strictly_increases(c, 30);
    }
}

/// Whoever pads `n` rows to the least power of two that holds them and fills a pack, on the device
/// or on the host, claims the same size.
pub proof fn law_padded_size_is_the_least(n: nat, log_size: nat)
    requires
        n <= 0x4000_0000,
        n <= pow2(log_size),
        N_LANES <= pow2(log_size),
        forall|k: nat| k < log_size ==> #[trigger] pow2(k) < n || pow2(k) < N_LANES,
    ensures
        log_size == padded_log(n),
{
    lemma_padded_log(n);
    lemma_padded_rows(n);
    lemma_ceil_log2(n);
    vstd::arithmetic::power2::lemma2_to64();
    let padded = padded_log(n) as nat;
    if padded < log_size {
        assert(pow2(padded) < n || pow2(padded) < N_LANES);
    }
    if log_size < padded {
        if ceil_log2(n) < 4 {
            lemma_pow2_strictly_increases(log_size, 4);
        } else {
            let below = (ceil_log2(n) - 1) as nat;
            if log_size < below {
                lemma_pow2_strictly_increases(log_size, below);
            }
        }
    }
}

/// A positive number lies between the power of its logarithm and twice this power.
pub proof fn law_logarithm_is_rounded_down(n: nat)
    requires
        n > 0,
    ensures
        pow2(floor_log2(n)) <= n < 2 * pow2(floor_log2(n)),
    decreases n,
{
    vstd::arithmetic::power2::lemma2_to64();
    if n > 1 {
        law_logarithm_is_rounded_down(n / 2);
        vstd::arithmetic::power2::lemma_pow2_unfold(floor_log2(n));
    }
}

/// The next power of two holds the number, and half of it does not.
pub proof fn law_next_power_is_the_least(n: nat, k: nat)
    ensures
        n <= next_pow2(n),
        n <= pow2(k) ==> next_pow2(n) <= pow2(k),
{
    lemma_ceil_log2(n);
    let c = ceil_log2(n);
    if n <= pow2(k) && k < c {
        vstd::arithmetic::power2::lemma2_to64();
        if k < c - 1 {
            lemma_pow2_strictly_increases(k, (c - 1) as nat);
        }
    } else if c < k {
        lemma_pow2_strictly_increases(c, k);
    }
}

} // verus!
