use vstd::prelude::*;

verus! {

/// Fee rates are counted in parts per hundred million.
pub const FEE_DENOMINATOR: u128 = 100_000_000;

/// The largest amount the asset ledger can move: its balances are `i128`.
pub const MAX_AMOUNT: u128 = 0x7fff_ffff_ffff_ffff_ffff_ffff_ffff_ffff;

/// `x / y` rounded up.
pub open spec fn ceil_div(x: int, y: int) -> int {
    if x % y == 0 {
        x / y
    } else {
        x / y + 1
    }
}

/// How much more collateral a short label costs: one for five letters and
/// more, `(5 - len) * 3` below.
pub open spec fn size_multiplier(len: nat) -> nat {
    if len > 4 {
        1
    } else {
        ((5 - len) * 3) as nat
    }
}

/// The collateral for `duration` seconds of a label of `len` bytes.
pub open spec fn collateral_of(rate: u128, duration: u64, len: nat) -> int {
    rate * duration * size_multiplier(len)
}

/// The protocol's share of `profit` at `rate`, rounded up so that a nonzero
/// share of a unit is never dropped.
pub open spec fn fee_of(profit: int, rate: int) -> int {
    ceil_div(profit * rate, FEE_DENOMINATOR as int)
}

/// Relies on num_integer::div_ceil: for unsigned integers, `x / y` plus one
/// when `y` does not divide `x`; it panics when `y` is zero.
#[verifier::external_body]
fn div_ceil(x: u128, y: u128) -> (r: u128)
    requires
        y > 0,
    ensures
        r as int == ceil_div(x as int, y as int),
{
    num_integer::div_ceil(x, y)
}

pub fn multiplier(len: usize) -> (r: u128)
    ensures
        r as int == size_multiplier(len as nat),
{
    if len > 4 {
        1
    } else {
        ((5 - len) * 3) as u128
    }
}

/// The collateral for registering a label of `len` bytes for `duration`
/// seconds, or `None` when it exceeds what the asset ledger can move.
pub fn collateral(node_rate: u128, duration: u64, len: usize) -> (r: Option<u128>)
    ensures
        match r {
            Some(c) => c as int == collateral_of(node_rate, duration, len as nat) && c
                <= MAX_AMOUNT,
            None => collateral_of(node_rate, duration, len as nat) > MAX_AMOUNT,
        },
{
    let m = multiplier(len);
    let per_second = match node_rate.checked_mul(duration as u128) {
        Some(v) => v,
        None => {
            assert(node_rate * duration * size_multiplier(len as nat) >= node_rate * duration)
                by (nonlinear_arith)
                requires
                    size_multiplier(len as nat) >= 1,
            ;
            return None;
        },
    };
    match per_second.checked_mul(m) {
        Some(c) => {
            if c > MAX_AMOUNT {
                None
            } else {
                Some(c)
            }
        },
        None => None,
    }
}

/// The fee on `profit` at `rate`, or `None` when `profit * rate` overflows.
pub fn fee(profit: u128, rate: u128) -> (r: Option<u128>)
    ensures
        match r {
            Some(f) => profit * rate <= u128::MAX && f as int == fee_of(profit as int, rate as int)
                && (rate <= FEE_DENOMINATOR ==> f <= profit),
            None => profit * rate > u128::MAX,
        },
{
    match profit.checked_mul(rate) {
        Some(p) => {
            let f = div_ceil(p, FEE_DENOMINATOR);
            proof {
                if rate <= FEE_DENOMINATOR {
                    lemma_fee_le_profit(profit as int, rate as int);
                }
            }
            Some(f)
        },
        None => None,
    }
}

/// At a rate of at most one hundred percent the fee never exceeds the profit.
pub proof fn lemma_fee_le_profit(profit: int, rate: int)
    requires
        0 <= profit,
        0 <= rate <= FEE_DENOMINATOR,
    ensures
        0 <= fee_of(profit, rate) <= profit,
{
    let d = FEE_DENOMINATOR as int;
    let p = profit * rate;
    assert(0 <= p <= profit * d) by (nonlinear_arith)
        requires
            0 <= profit,
            0 <= rate <= d,
            p == profit * rate,
    ;
    assert(p / d <= profit && (p % d != 0 ==> p / d < profit)) by (nonlinear_arith)
        requires
            0 <= p <= profit * d,
            d > 0,
    ;
}

} // verus!
