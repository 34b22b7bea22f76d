//! Bonding-curve progress and market capitalisation.

use vstd::prelude::*;
use vstd::arithmetic::div_mod::{
    lemma_div_denominator, lemma_div_is_ordered, lemma_div_pos_is_pos, lemma_fundamental_div_mod,
    lemma_fundamental_div_mod_converse,
};
use vstd::arithmetic::power::{lemma_pow_increases, pow};

verus! {

/// Token-side virtual reserve of a freshly created curve, in base units.
pub const INITIAL_VIRTUAL_TOKEN_RESERVES: i128 = 1_073_000_000_000_000;

/// Tokens that a curve offers for sale before it completes, in base units.
pub const INITIAL_REAL_TOKEN_RESERVES: i128 = 793_100_000_000_000;

/// Progress of a curve whose token-side virtual reserve is `reserve`: the
/// share of the tokens on offer that has been sold, as a whole percentage
/// rounded down and kept within 0 and 100.
pub open spec fn bonding_curve_progress(reserve: int) -> int {
    let sold = INITIAL_VIRTUAL_TOKEN_RESERVES - reserve;
    let percent = sold * 100 / (INITIAL_REAL_TOKEN_RESERVES as int);
    if percent < 0 {
        0
    } else if percent > 100 {
        100
    } else {
        percent
    }
}

/// Computes the progress of a bonding curve from its token-side virtual
/// reserve. A reserve above the initial one counts as no progress, a reserve
/// that has lost more than the tokens on offer as full progress.
pub fn get_bonding_curve_progress(virtual_token_reserve: i128) -> (progress: i128)
    ensures
        progress == bonding_curve_progress(virtual_token_reserve as int),
        0 <= progress <= 100,
{
    if virtual_token_reserve >= INITIAL_VIRTUAL_TOKEN_RESERVES {
        0
    } else if virtual_token_reserve <= INITIAL_VIRTUAL_TOKEN_RESERVES
        - INITIAL_REAL_TOKEN_RESERVES {
        100
    } else {
        let sold: i128 = INITIAL_VIRTUAL_TOKEN_RESERVES - virtual_token_reserve;
        sold * 100 / INITIAL_REAL_TOKEN_RESERVES
    }
}

/// Lamports in one SOL.
pub const LAMPORTS_PER_SOL: u64 = 1_000_000_000;

/// Units in which a quote price is held: millionths of a dollar.
pub const PRICE_SCALE: u64 = 1_000_000;

/// Decimal places of every tracked token.
pub const TOKEN_DECIMALS: i64 = 6;

/// Supply of every tracked token, in whole tokens.
pub const TOTAL_SUPPLY: u64 = 1_000_000_000;

/// Base units of a token that make up one percent of its supply.
pub const BASE_UNITS_PER_PERCENT: i128 = 10_000_000_000_000;

/// Largest number of decimal places whose unit fits in 64 bits.
pub const MAX_DECIMALS: i64 = 19;

/// `value`, kept at or below the largest market capitalisation that can be
/// held.
pub open spec fn capped(value: int) -> int {
    if value > i64::MAX {
        i64::MAX as int
    } else {
        value
    }
}

/// Market capitalisation in whole dollars, rounded down: the price of one
/// token, which is the ratio of the SOL to the tokens in the virtual
/// reserves times the price of one SOL, times the supply.
///
/// The reserves are in lamports and in base units of a token of `decimals`
/// decimal places, `total_supply` is in whole tokens and `price` is the
/// price of one SOL in millionths of a dollar. The reserves enter as they
/// are: nothing is rounded before the one division. The result is kept at
/// or below `i64::MAX`. Where the token reserve is empty the price has no
/// bound: the result is `i64::MAX`, unless the worth of the SOL side is
/// zero too, where it is zero.
pub open spec fn market_cap(
    virtual_sol_reserves: int,
    virtual_token_reserves: int,
    decimals: nat,
    total_supply: int,
    price: int,
) -> int {
    let worth = virtual_sol_reserves * pow(10, decimals) * price * total_supply;
    if virtual_token_reserves == 0 {
        if worth == 0 {
            0
        } else {
            i64::MAX as int
        }
    } else {
        capped(worth / (LAMPORTS_PER_SOL * virtual_token_reserves * PRICE_SCALE))
    }
}

/// Computes ten to the power of `decimals`.
fn power_of_ten(decimals: u32) -> (unit: u64)
    requires
        decimals <= MAX_DECIMALS,
    ensures
        unit == pow(10, decimals as nat),
        unit >= 1,
{
    let mut unit: u64 = 1;
    let mut done: u32 = 0;
    assert(pow(10, 0) == 1) by {
        reveal_with_fuel(pow, 1);
    }
    while done < decimals
        invariant
            done <= decimals <= MAX_DECIMALS,
            unit == pow(10, done as nat),
            unit >= 1,
        decreases decimals - done,
    {
        proof {
            reveal_with_fuel(pow, 2);
            assert(pow(10, (done + 1) as nat) == 10 * pow(10, done as nat));
            lemma_pow_increases(10, (done + 1) as nat, 19);
            assert(pow(10, 19) == 10_000_000_000_000_000_000int) by {
                reveal_with_fuel(pow, 20);
            }
        }
        unit = unit * 10;
        done = done + 1;
    }
    unit
}

/// Lamports times millionths of a dollar: what the quotient of the worth by
/// the token reserve is still to be divided by.
pub const UNIT_SCALE: u128 = 1_000_000_000_000_000;

/// The least quotient by the token reserve that gives more than `i64::MAX`
/// dollars: two to the power of 63, times [`UNIT_SCALE`].
pub const QUOTIENT_LIMIT: u128 = 9_223_372_036_854_775_808_000_000_000_000_000;

/// A product that is followed through its factors as a quotient and a
/// remainder by one divisor, so that no factor is lost to the width of the
/// machine's numbers. A quotient at or above [`QUOTIENT_LIMIT`] is not
/// followed further.
struct Running {
    quotient: u128,
    remainder: u64,
    beyond: bool,
}

impl Running {
    /// Whether this is the product `value` over `divisor`: its quotient and
    /// remainder where the quotient is below the limit, and the mark that
    /// the quotient is at or above the limit where it is not.
    spec fn follows(self, value: int, divisor: int) -> bool {
        if self.beyond {
            value / divisor >= QUOTIENT_LIMIT
        } else {
            &&& value == self.quotient * divisor + self.remainder
            &&& self.remainder < divisor
            &&& self.quotient < QUOTIENT_LIMIT
        }
    }
}

/// Starts to follow the product whose first factor is `first`.
fn begin(first: u64, divisor: u64) -> (running: Running)
    requires
        divisor > 0,
    ensures
        running.follows(first as int, divisor as int),
{
    proof {
        lemma_fundamental_div_mod(first as int, divisor as int);
        assert(divisor * (first / divisor) == (first / divisor) * divisor) by (nonlinear_arith);
    }
    Running { quotient: (first / divisor) as u128, remainder: first % divisor, beyond: false }
}

/// Takes one more factor into the product.
fn times(running: Running, factor: u64, divisor: u64, Ghost(value): Ghost<int>) -> (next: Running)
    requires
        divisor > 0,
        running.follows(value, divisor as int),
    ensures
        next.follows(value * factor, divisor as int),
{
    let ghost d = divisor as int;
    let ghost f = factor as int;
    if factor == 0 {
        assert(value * f == 0) by (nonlinear_arith)
            requires
                f == 0,
        ;
        return Running { quotient: 0, remainder: 0, beyond: false };
    }
    if running.beyond {
        proof {
            assert(value >= 0) by (nonlinear_arith)
                requires
                    value / d >= 1,
                    d > 0,
            ;
            assert(value <= value * f) by (nonlinear_arith)
                requires
                    value >= 0,
                    f >= 1,
            ;
            lemma_div_is_ordered(value, value * f, d);
        }
        return Running { quotient: 0, remainder: 0, beyond: true };
    }
    assert(running.remainder * factor <= u128::MAX) by (nonlinear_arith)
        requires
            running.remainder <= 0xffff_ffff_ffff_ffff,
            factor <= 0xffff_ffff_ffff_ffff,
    ;
    let carried: u128 = (running.remainder as u128) * (factor as u128);
    let whole: u128 = carried / (divisor as u128);
    let left: u128 = carried % (divisor as u128);
    proof {
        lemma_fundamental_div_mod(carried as int, d);
        // value * factor == (quotient * factor + whole) * divisor + left
        assert(value * f == (running.quotient * f + whole) * d + left) by (nonlinear_arith)
            requires
                value == running.quotient * d + running.remainder,
                carried == running.remainder * f,
                carried == d * whole + left,
        ;
        lemma_fundamental_div_mod_converse(
            value * f,
            d,
            running.quotient * f + whole,
            left as int,
        );
    }
    let quotient: u128 = match running.quotient.checked_mul(factor as u128) {
        Some(scaled) => match scaled.checked_add(whole) {
            Some(quotient) => quotient,
            None => {
                return Running { quotient: 0, remainder: 0, beyond: true };
            },
        },
        None => {
            return Running { quotient: 0, remainder: 0, beyond: true };
        },
    };
    if quotient >= QUOTIENT_LIMIT {
        Running { quotient: 0, remainder: 0, beyond: true }
    } else {
        Running { quotient, remainder: left as u64, beyond: false }
    }
}

/// Computes the market capitalisation of a token in whole dollars from the
/// virtual reserves of its curve, in lamports and in base units, its
/// decimal places, its supply in whole tokens and the price of one SOL in
/// millionths of a dollar.
pub fn get_market_cap(
    virtual_sol_reserves: u64,
    virtual_token_reserve: u64,
    decimals: i64,
    total_supply: u64,
    sol_price_usd: u64,
) -> (cap: i64)
    requires
        0 <= decimals <= MAX_DECIMALS,
    ensures
        cap == market_cap(
            virtual_sol_reserves as int,
            virtual_token_reserve as int,
            decimals as nat,
            total_supply as int,
            sol_price_usd as int,
        ),
        0 <= cap,
{
    let unit: u64 = power_of_ten(decimals as u32);
    let ghost worth = virtual_sol_reserves * unit * sol_price_usd * total_supply;
    if virtual_token_reserve == 0 {
        proof {
            assert((worth == 0) == (virtual_sol_reserves == 0 || sol_price_usd == 0 || total_supply
                == 0)) by (nonlinear_arith)
                requires
                    worth == virtual_sol_reserves * unit * sol_price_usd * total_supply,
                    unit >= 1,
            ;
        }
        return if virtual_sol_reserves == 0 || sol_price_usd == 0 || total_supply == 0 {
            0
        } else {
            i64::MAX
        };
    }
    let running = begin(virtual_sol_reserves, virtual_token_reserve);
    let running = times(running, unit, virtual_token_reserve, Ghost(virtual_sol_reserves as int));
    let running = times(
        running,
        sol_price_usd,
        virtual_token_reserve,
        Ghost(virtual_sol_reserves * unit),
    );
    let running = times(
        running,
        total_supply,
        virtual_token_reserve,
        Ghost(virtual_sol_reserves * unit * sol_price_usd),
    );
    proof {
        let reserve = virtual_token_reserve as int;
        assert(0 <= worth) by (nonlinear_arith)
            requires
                worth == virtual_sol_reserves * unit * sol_price_usd * total_supply,
                0 <= virtual_sol_reserves,
                0 <= unit,
                0 <= sol_price_usd,
                0 <= total_supply,
        ;
        assert(LAMPORTS_PER_SOL * reserve * PRICE_SCALE == reserve * UNIT_SCALE);
        lemma_div_denominator(worth, reserve, UNIT_SCALE as int);
        lemma_div_pos_is_pos(worth, reserve);
        lemma_div_pos_is_pos(worth / reserve, UNIT_SCALE as int);
        if running.beyond {
            lemma_div_is_ordered(QUOTIENT_LIMIT as int, worth / reserve, UNIT_SCALE as int);
            assert(QUOTIENT_LIMIT as int / (UNIT_SCALE as int) == 0x8000_0000_0000_0000);
        } else {
            lemma_fundamental_div_mod_converse(
                worth,
                reserve,
                running.quotient as int,
                running.remainder as int,
            );
            lemma_div_is_ordered(
                running.quotient as int,
                QUOTIENT_LIMIT - 1,
                UNIT_SCALE as int,
            );
            assert((QUOTIENT_LIMIT - 1) / (UNIT_SCALE as int) == 0x7fff_ffff_ffff_ffff);
        }
    }
    if running.beyond {
        i64::MAX
    } else {
        (running.quotient / UNIT_SCALE) as i64
    }
}

} // verus!
