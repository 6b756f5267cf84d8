//! Small numeric and text helpers shared by the generators.
use crate::text::{decimal, decimal_string};
use vstd::prelude::*;

verus! {

/// The number of address bits needed to tell `n` values apart: the least
/// `w` with `2^w >= n`. Zero for `n <= 1`.
pub open spec fn ceil_log2(n: nat) -> nat
    decreases n,
{
    if n <= 1 {
        0
    } else {
        1 + ceil_log2((n + 1) / 2)
    }
}

/// `ceil_log2(n)` is characterised by the two powers of two around `n`.
pub proof fn lemma_ceil_log2_bounds(n: nat)
    requires
        n >= 1,
    ensures
        n <= vstd::arithmetic::power2::pow2(ceil_log2(n)),
        ceil_log2(n) > 0 ==> vstd::arithmetic::power2::pow2((ceil_log2(n) - 1) as nat) < n,
    decreases n,
{
    vstd::arithmetic::power2::lemma2_to64();
    if n > 1 {
        let h: nat = (n + 1) / 2;
        lemma_ceil_log2_bounds(h);
        vstd::arithmetic::power2::lemma_pow2_unfold(ceil_log2(n));
        if ceil_log2(h) > 0 {
            vstd::arithmetic::power2::lemma_pow2_unfold(ceil_log2(h));
        }
    }
}

/// Any `k` with `n <= 2^k` is an upper bound of `ceil_log2(n)`.
pub proof fn lemma_ceil_log2_least(n: nat, k: nat)
    requires
        n <= vstd::arithmetic::power2::pow2(k),
    ensures
        ceil_log2(n) <= k,
    decreases n,
{
    if n > 1 {
        vstd::arithmetic::power2::lemma2_to64();
        if k == 0 {
            assert(false);
        }
        vstd::arithmetic::power2::lemma_pow2_unfold(k);
        lemma_ceil_log2_least((n + 1) / 2, (k - 1) as nat);
    }
}

/// Ceiling of the base-two logarithm; `None` for zero, which has none.
pub fn clog2(n: usize) -> (r: Option<usize>)
    ensures
        n == 0 <==> r is None,
        n > 0 ==> r == Some(ceil_log2(n as nat) as usize),
        n > 0 ==> ceil_log2(n as nat) <= 64,
{
    if n == 0 {
        return None;
    }
    proof {
        vstd::arithmetic::power2::lemma2_to64();
        lemma_ceil_log2_least(n as nat, 64);
    }
    let mut m: usize = n;
    let mut w: usize = 0;
    while m > 1
        invariant
            m >= 1,
            ceil_log2(n as nat) <= 64,
            ceil_log2(n as nat) == w + ceil_log2(m as nat),
        decreases m,
    {
        m = m / 2 + m % 2;
        w = w + 1;
    }
    Some(w)
}

/// The width of an address for `total` places: wide enough to tell them
/// apart, and never less than one bit.
pub open spec fn address_width(total: nat) -> nat {
    if ceil_log2(total) < 1 {
        1
    } else {
        ceil_log2(total)
    }
}

/// The width of an address for `total` places, at least one bit.
pub fn address_bits(total: usize) -> (w: usize)
    ensures
        w == address_width(total as nat),
        1 <= w <= 64,
{
    match clog2(total) {
        Some(w) => if w < 1 {
            1
        } else {
            w
        },
        None => 1,
    }
}

/// The index selector of element `n` of an array of `size` elements: none
/// for a scalar, `[n]` otherwise.
pub open spec fn sel_text(n: nat, size: nat) -> Seq<char> {
    if size == 1 {
        Seq::empty()
    } else {
        "["@ + decimal(n) + "]"@
    }
}

/// The part select of the low `begin` bits down to bit `end`: none for
/// `begin == 0`, `[begin-1:end]` otherwise.
pub open spec fn range_text(begin: nat, end: nat) -> Seq<char> {
    if begin == 0 {
        Seq::empty()
    } else {
        "["@ + decimal((begin - 1) as nat) + ":"@ + decimal(end) + "]"@
    }
}

/// Renders the index selector of element `n` of an array of `size`.
pub fn sel(n: usize, size: usize) -> (r: String)
    ensures
        r@ == sel_text(n as nat, size as nat),
{
    if size == 1 {
        String::new()
    } else {
        let mut s = String::from_str("[");
        s.append(decimal_string(n).as_str());
        s.append("]");
        s
    }
}

/// Renders the part select `[begin-1:end]`, or nothing for `begin == 0`.
pub fn range(begin: usize, end: usize) -> (r: String)
    ensures
        r@ == range_text(begin as nat, end as nat),
{
    if begin == 0 {
        String::new()
    } else {
        let mut s = String::from_str("[");
        s.append(decimal_string(begin - 1).as_str());
        s.append(":");
        s.append(decimal_string(end).as_str());
        s.append("]");
        s
    }
}

} // verus!
