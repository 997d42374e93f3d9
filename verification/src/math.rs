use vstd::arithmetic::div_mod::lemma_basic_div;
use vstd::prelude::*;

verus! {

/// Ten to the power `e`, over the naturals.
pub open spec fn pow10(e: nat) -> nat
    decreases e,
{
    if e == 0 {
        1
    } else {
        10 * pow10((e - 1) as nat)
    }
}

/// `n` is the integer square root of `q`: the largest natural number whose
/// square does not exceed `q`.
pub open spec fn is_floor_sqrt(q: nat, n: nat) -> bool {
    n * n <= q && q < (n + 1) * (n + 1)
}

/// The integer square root of `q`, as a total function.
pub open spec fn floor_sqrt(q: nat) -> nat
    decreases q,
{
    if q == 0 {
        0
    } else {
        let r = floor_sqrt((q - 1) as nat);
        if (r + 1) * (r + 1) <= q {
            r + 1
        } else {
            r
        }
    }
}

pub proof fn lemma_pow10_pos(e: nat)
    ensures
        pow10(e) >= 1,
    decreases e,
{
    if e > 0 {
        lemma_pow10_pos((e - 1) as nat);
    }
}

pub proof fn lemma_pow10_increases(e1: nat, e2: nat)
    requires
        e1 <= e2,
    ensures
        pow10(e1) <= pow10(e2),
    decreases e2,
{
    if e1 < e2 {
        lemma_pow10_increases(e1, (e2 - 1) as nat);
        lemma_pow10_pos((e2 - 1) as nat);
    }
}

pub proof fn lemma_pow10_38()
    ensures
        pow10(38) == 100_000_000_000_000_000_000_000_000_000_000_000_000,
{
    reveal_with_fuel(pow10, 40);
}

pub proof fn lemma_pow10_39()
    ensures
        pow10(39) == 1_000_000_000_000_000_000_000_000_000_000_000_000_000,
{
    reveal_with_fuel(pow10, 41);
}

pub proof fn lemma_floor_sqrt_is_sqrt(q: nat)
    ensures
        is_floor_sqrt(q, floor_sqrt(q)),
    decreases q,
{
    let n = floor_sqrt(q);
    if q > 0 {
        lemma_floor_sqrt_is_sqrt((q - 1) as nat);
        let r = floor_sqrt((q - 1) as nat);
        assert(r * r <= q - 1);
        assert(q - 1 < (r + 1) * (r + 1));
        if (r + 1) * (r + 1) <= q {
            assert(n == r + 1);
            assert(n * n <= q && q < (n + 1) * (n + 1)) by (nonlinear_arith)
                requires
                    n == r + 1,
                    (r + 1) * (r + 1) <= q,
                    q - 1 < (r + 1) * (r + 1),
            ;
        } else {
            assert(n == r);
            assert(n * n <= q && q < (n + 1) * (n + 1)) by (nonlinear_arith)
                requires
                    n == r,
                    r * r <= q - 1,
                    q < (r + 1) * (r + 1),
                    q > 0,
            ;
        }
    } else {
        assert(n == 0);
        assert(n * n <= q && q < (n + 1) * (n + 1)) by (nonlinear_arith)
            requires
                n == 0,
                q == 0,
        ;
    }
}

pub proof fn lemma_floor_sqrt_unique(q: nat, n: nat)
    requires
        is_floor_sqrt(q, n),
    ensures
        n == floor_sqrt(q),
{
    lemma_floor_sqrt_is_sqrt(q);
    let m = floor_sqrt(q);
    if n < m {
        assert((n + 1) * (n + 1) <= m * m) by (nonlinear_arith)
            requires
                n < m,
        ;
    } else if m < n {
        assert((m + 1) * (m + 1) <= n * n) by (nonlinear_arith)
            requires
                m < n,
        ;
    }
}

/// Ten to the power `e`, executable.
pub fn pow10_u128(e: u32) -> (p: u128)
    requires
        e <= 38,
    ensures
        p as nat == pow10(e as nat),
{
    let mut p: u128 = 1;
    let mut i: u32 = 0;
    while i < e
        invariant
            i <= e,
            e <= 38,
            p as nat == pow10(i as nat),
        decreases e - i,
    {
        proof {
            lemma_pow10_increases(i as nat + 1, 38);
            lemma_pow10_38();
            assert(pow10(i as nat + 1) == 10 * pow10(i as nat));
        }
        p = p * 10;
        i = i + 1;
    }
    p
}

/// The integer square root of a 128-bit value. The root of any `u128` fits
/// in a `u64`.
pub fn isqrt_u128(q: u128) -> (s: u64)
    ensures
        is_floor_sqrt(q as nat, s as nat),
{
    let mut lo: u128 = 0;
    let mut hi: u128 = 0x1_0000_0000_0000_0000;
    proof {
        assert((hi as nat) * (hi as nat) > u128::MAX as nat) by (nonlinear_arith)
            requires
                hi == 0x1_0000_0000_0000_0000u128,
        ;
    }
    while lo + 1 < hi
        invariant
            lo < hi,
            hi <= 0x1_0000_0000_0000_0000,
            (lo as nat) * (lo as nat) <= q as nat,
            (q as nat) < (hi as nat) * (hi as nat),
        decreases hi - lo,
    {
        let mid = lo + (hi - lo) / 2;
        proof {
            assert((mid as nat) * (mid as nat) <= u128::MAX as nat) by (nonlinear_arith)
                requires
                    mid < 0x1_0000_0000_0000_0000u128,
            ;
        }
        if mid * mid <= q {
            lo = mid;
        } else {
            hi = mid;
        }
    }
    lo as u64
}

/// Shares minted by the first deposit into an empty pool: the integer square
/// root of the product of the two deposited amounts, each scaled down by its
/// asset's declared decimal precision.
pub open spec fn spec_bootstrap_shares(a1: nat, d1: nat, a2: nat, d2: nat) -> nat {
    floor_sqrt((a1 * a2) / pow10(d1 + d2))
}

pub fn bootstrap_shares(amount_one: u64, decimals_one: u8, amount_two: u64, decimals_two: u8) -> (s:
    u64)
    ensures
        s as nat == spec_bootstrap_shares(
            amount_one as nat,
            decimals_one as nat,
            amount_two as nat,
            decimals_two as nat,
        ),
{
    let e: u32 = decimals_one as u32 + decimals_two as u32;
    proof {
        assert((amount_one as nat) * (amount_two as nat) <= u128::MAX as nat) by (nonlinear_arith)
            requires
                amount_one <= u64::MAX,
                amount_two <= u64::MAX,
        ;
    }
    let prod: u128 = (amount_one as u128) * (amount_two as u128);
    if e >= 39 {
        proof {
            lemma_pow10_39();
            lemma_pow10_increases(39, e as nat);
            assert((amount_one as nat) * (amount_two as nat) < pow10(39)) by (nonlinear_arith)
                requires
                    amount_one <= u64::MAX,
                    amount_two <= u64::MAX,
                    pow10(39) == 1_000_000_000_000_000_000_000_000_000_000_000_000_000,
            ;
            lemma_basic_div(prod as int, pow10(e as nat) as int);
            assert(floor_sqrt(0) == 0);
        }
        0
    } else {
        let pw = pow10_u128(e);
        proof {
            lemma_pow10_pos(e as nat);
        }
        let q = prod / pw;
        let s = isqrt_u128(q);
        proof {
            lemma_floor_sqrt_unique(q as nat, s as nat);
        }
        s
    }
}

} // verus!
