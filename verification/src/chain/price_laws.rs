//! What prices are worth, in exact fractions.
use vstd::arithmetic::power2::{lemma_pow2_adds, lemma_pow2_pos, pow2};
use vstd::prelude::*;

use crate::address::{Address, U256};
use crate::bounds::lemma_one;
use crate::chain::pricing::{
    eth_usd_of, pool_prices, price_of_0_in_1, sqrt_ratio, usd_per_eth,
};
use crate::closeness::{
    close, lemma_close, lemma_near_integer, lemma_near_of_nat, lemma_near_product,
    lemma_near_quotient, lemma_near_same, lemma_near_self, lemma_near_ten, lemma_near_weaken,
    lemma_ten_bound, lemma_ten_powers, near, ordinary,
};
use crate::config::References;
use crate::decimal::ten_power;
use crate::double::{exponent_of, mantissa_of, of_nat, one_units, quotient_of, Double};
use crate::monotone::plain;
use crate::numbers::TWO_96;
use crate::order::{ten_to, ONE};
use crate::rounding::{lemma_pow2_127, lemma_pow2_zero, BINADE};

verus! {

/// The largest number of decimals for which a whole token is an amount of 256 bits.
pub const MOST_DECIMALS: u8 = 77;

proof fn lemma_sqrt_ratio(s: U256)
    ensures
        near(sqrt_ratio(s), s.lo as nat, pow2(96), 3, 224),
{
    lemma_pow2_127();
    vstd::arithmetic::power2::lemma2_to64();
    lemma_pow2_adds(64, 64);
    lemma_near_of_nat(s.lo as nat, 128);
    let t = Double { bits: TWO_96 };
    assert(t.magnitude() == TWO_96);
    assert(exponent_of(TWO_96 as nat) == 1118);
    assert(mantissa_of(TWO_96 as nat) == BINADE);
    lemma_pow2_adds(52, 1118);
    lemma_pow2_adds(96, 1074);
    lemma_pow2_pos(96);
    lemma_near_integer(t, pow2(96), 96);
    lemma_near_quotient(of_nat(s.lo as nat), s.lo as nat, 1, 1, 128, t, pow2(96), 1, 0, 96);
    assert(s.lo as nat * 1nat == s.lo);
    assert(1nat * pow2(96) == pow2(96));
}

pub proof fn lemma_price(s: U256, decimals0: u8, decimals1: u8)
    requires
        decimals0 <= MOST_DECIMALS,
        decimals1 <= MOST_DECIMALS,
    ensures
        near(
            price_of_0_in_1(s, decimals0, decimals1),
            (s.lo as nat * s.lo as nat) * ten_power(decimals0 as nat),
            pow2(192) * ten_power(decimals1 as nat),
            400,
            756,
        ),
{
    let r = sqrt_ratio(s);
    let q = s.lo as nat;
    let w = q * q;
    lemma_sqrt_ratio(s);
    lemma_pow2_adds(96, 96);
    lemma_pow2_pos(192);
    lemma_near_product(r, q, pow2(96), 3, 224, r, q, pow2(96), 3, 224);
    let n = decimals0 - decimals1;
    lemma_near_ten(n);
    let sq = crate::double::product_of(r, r);
    let t0 = ten_power(decimals0 as nat);
    let t1 = ten_power(decimals1 as nat);
    let p = price_of_0_in_1(s, decimals0, decimals1);
    let h = pow2(192);
    lemma_ten_bound(decimals0 as nat);
    lemma_ten_bound(decimals1 as nat);
    assert(h * t1 > 0) by (nonlinear_arith)
        requires
            h > 0,
            t1 > 0,
    ;
    if n >= 0 {
        let t = ten_power(n as nat);
        lemma_near_product(sq, w, h, 8, 448, ten_to(n), t, 1, 2 * n as nat, 4 * n as nat);
        lemma_ten_powers(n as nat, decimals1 as nat);
        assert(h * 1 == h);
        assert((w * t) * (h * t1) == (w * t0) * h) by (nonlinear_arith)
            requires
                t0 == t * t1,
        ;
        lemma_near_same(
            p,
            w * t,
            h,
            (8 + 2 * n + 2) as nat,
            (448 + 4 * n) as nat,
            w * t0,
            h * t1,
        );
        lemma_near_weaken(
            p,
            w * t0,
            h * t1,
            (8 + 2 * n + 2) as nat,
            (448 + 4 * n) as nat,
            400,
            756,
        );
    } else {
        let m = (-n) as nat;
        let t = ten_power(m);
        lemma_ten_bound(m);
        lemma_near_product(sq, w, h, 8, 448, ten_to(n), 1, t, 2 * m + 2, 4 * m);
        lemma_ten_powers(m, decimals0 as nat);
        assert(w * 1 == w);
        assert(w * (h * t1) == (w * t0) * (h * t)) by (nonlinear_arith)
            requires
                t1 == t * t0,
        ;
        lemma_near_same(p, w, h * t, 8 + (2 * m + 2) + 2, 448 + 4 * m, w * t0, h * t1);
        lemma_near_weaken(
            p,
            w * t0,
            h * t1,
            8 + (2 * m + 2) + 2,
            448 + 4 * m,
            400,
            756,
        );
    }
}

/// The price of token0 in token1 is the square of `sqrtPriceX96 / 2^96`, in whole tokens:
/// times ten to the power of token0's decimals, over ten to the power of token1's. So at
/// the same `sqrtPriceX96` one more decimal of token0 makes a whole token0 worth ten times
/// as many whole token1.
pub proof fn law_price_in_whole_tokens(sqrt_price_x96: U256, decimals0: u8, decimals1: u8)
    requires
        decimals0 <= MOST_DECIMALS,
        decimals1 <= MOST_DECIMALS,
    ensures
        close(
            price_of_0_in_1(sqrt_price_x96, decimals0, decimals1),
            (sqrt_price_x96.lo as nat * sqrt_price_x96.lo as nat) * ten_power(decimals0 as nat),
            pow2(192) * ten_power(decimals1 as nat),
        ),
{
    lemma_price(sqrt_price_x96, decimals0, decimals1);
    lemma_close(
        price_of_0_in_1(sqrt_price_x96, decimals0, decimals1),
        (sqrt_price_x96.lo as nat * sqrt_price_x96.lo as nat) * ten_power(decimals0 as nat),
        pow2(192) * ten_power(decimals1 as nat),
        400,
        756,
    );
}

proof fn lemma_quoted(known: Double, s: U256, decimals0: u8, decimals1: u8)
    requires
        plain(known),
        known.finite(),
        ordinary(known, 128),
        s.lo > 0,
        decimals0 <= MOST_DECIMALS,
        decimals1 <= MOST_DECIMALS,
    ensures
        ({
            let q = s.lo as nat * s.lo as nat;
            let t0 = ten_power(decimals0 as nat);
            let t1 = ten_power(decimals1 as nat);
            let price = price_of_0_in_1(s, decimals0, decimals1);
            &&& close(
                crate::double::product_of(known, price),
                known.size() * (q * t0),
                one_units() * (pow2(192) * t1),
            )
            &&& close(
                quotient_of(known, price),
                known.size() * (pow2(192) * t1),
                one_units() * (q * t0),
            )
        }),
{
    let q = s.lo as nat * s.lo as nat;
    let t0 = ten_power(decimals0 as nat);
    let t1 = ten_power(decimals1 as nat);
    let price = price_of_0_in_1(s, decimals0, decimals1);
    let k = known.size();
    let u = one_units();
    lemma_price(s, decimals0, decimals1);
    lemma_near_self(known, 128);
    lemma_ten_bound(decimals0 as nat);
    assert(q * t0 > 0) by (nonlinear_arith)
        requires
            q == s.lo * s.lo,
            s.lo > 0,
            t0 > 0,
    ;
    lemma_near_product(known, k, u, 0, 128, price, q * t0, pow2(192) * t1, 400, 756);
    lemma_near_quotient(known, k, u, 0, 128, price, q * t0, pow2(192) * t1, 400, 756);
    lemma_close(
        crate::double::product_of(known, price),
        k * (q * t0),
        u * (pow2(192) * t1),
        402,
        884,
    );
    lemma_close(quotient_of(known, price), k * (pow2(192) * t1), u * (q * t0), 402, 884);
}

/// The USD prices of a pool's tokens agree with the pool: as many smallest units of token1
/// as the square of `sqrtPriceX96 / 2^96` says are worth one smallest unit of token0,
/// whichever of the two is the token whose price is known. That one has the known price:
/// WETH that of ETH, and the reference asset one dollar.
pub proof fn law_prices_agree_with_pool(
    references: References,
    token0: Address,
    token1: Address,
    decimals0: u8,
    decimals1: u8,
    eth_usd: Double,
    sqrt_price_x96: U256,
)
    requires
        decimals0 <= MOST_DECIMALS,
        decimals1 <= MOST_DECIMALS,
        plain(eth_usd),
        eth_usd.finite(),
        ordinary(eth_usd, 128),
        sqrt_price_x96.lo > 0,
    ensures
        match pool_prices(
            Some(references),
            token0,
            token1,
            decimals0,
            decimals1,
            eth_usd,
            Some(sqrt_price_x96),
        ) {
            Some((price0, price1)) => {
                let q = sqrt_price_x96.lo as nat * sqrt_price_x96.lo as nat;
                let t0 = ten_power(decimals0 as nat);
                let t1 = ten_power(decimals1 as nat);
                &&& close(
                    price0,
                    price1.size() * (q * t0),
                    one_units() * (pow2(192) * t1),
                ) || close(price1, price0.size() * (pow2(192) * t1), one_units() * (q * t0))
                &&& token0 == references.weth ==> price0 == eth_usd && close(
                    price1,
                    price0.size() * (pow2(192) * t1),
                    one_units() * (q * t0),
                )
                &&& token0 != references.weth && token1 == references.weth ==> price1 == eth_usd
                    && close(price0, price1.size() * (q * t0), one_units() * (pow2(192) * t1))
                &&& token0 != references.weth && token1 != references.weth && token0
                    == references.usdg ==> price0.units() == one_units() && close(
                    price1,
                    price0.size() * (pow2(192) * t1),
                    one_units() * (q * t0),
                )
                &&& token0 != references.weth && token1 != references.weth && token0
                    != references.usdg ==> token1 == references.usdg && price1.units()
                    == one_units() && close(
                    price0,
                    price1.size() * (q * t0),
                    one_units() * (pow2(192) * t1),
                )
            },
            None => token0 != references.weth && token0 != references.usdg && token1
                != references.weth && token1 != references.usdg,
        },
{
    let one = Double { bits: ONE };
    lemma_one();
    lemma_pow2_pos(1074);
    lemma_pow2_pos(128);
    assert(one.magnitude() == ONE);
    let u = one_units();
    assert(u <= u * pow2(128)) by (nonlinear_arith)
        requires
            u >= 0,
            pow2(128) >= 1,
    ;
    lemma_quoted(eth_usd, sqrt_price_x96, decimals0, decimals1);
    lemma_quoted(one, sqrt_price_x96, decimals0, decimals1);
}

/// The price of ETH in USD is the same whichever of the two tokens the pool lists first:
/// from WETH as token0 it is token1 per token0, else its inverse, in whole tokens.
pub proof fn law_eth_price(sqrt_price_x96: U256, decimals0: u8, decimals1: u8)
    requires
        decimals0 <= MOST_DECIMALS,
        decimals1 <= MOST_DECIMALS,
        sqrt_price_x96.lo > 0,
    ensures
        ({
            let q = sqrt_price_x96.lo as nat * sqrt_price_x96.lo as nat;
            let t0 = ten_power(decimals0 as nat);
            let t1 = ten_power(decimals1 as nat);
            &&& close(
                usd_per_eth(sqrt_price_x96, decimals0, decimals1, true),
                q * t0,
                pow2(192) * t1,
            )
            &&& close(
                usd_per_eth(sqrt_price_x96, decimals0, decimals1, false),
                pow2(192) * t1,
                q * t0,
            )
        }),
{
    let one = Double { bits: ONE };
    let q = sqrt_price_x96.lo as nat * sqrt_price_x96.lo as nat;
    let t0 = ten_power(decimals0 as nat);
    let t1 = ten_power(decimals1 as nat);
    let price = price_of_0_in_1(sqrt_price_x96, decimals0, decimals1);
    lemma_one();
    lemma_pow2_zero();
    assert(one.magnitude() == ONE);
    assert(one.size() == 1 * one_units());
    lemma_near_integer(one, 1, 0);
    law_price_in_whole_tokens(sqrt_price_x96, decimals0, decimals1);
    lemma_price(sqrt_price_x96, decimals0, decimals1);
    lemma_ten_bound(decimals0 as nat);
    assert(q * t0 > 0) by (nonlinear_arith)
        requires
            q == sqrt_price_x96.lo * sqrt_price_x96.lo,
            sqrt_price_x96.lo > 0,
            t0 > 0,
    ;
    lemma_near_quotient(one, 1, 1, 0, 0, price, q * t0, pow2(192) * t1, 400, 756);
    assert(1 * (pow2(192) * t1) == pow2(192) * t1);
    assert(1 * (q * t0) == q * t0);
    lemma_close(quotient_of(one, price), pow2(192) * t1, q * t0, 402, 756);
}

/// The price of ETH counts WETH in eighteen and the reference asset in six decimals, on
/// whichever side of the pool they are.
pub proof fn law_eth_price_by_side(weth: Address, token0: Address, sqrt_price_x96: U256)
    requires
        sqrt_price_x96.lo > 0,
    ensures
        ({
            let q = sqrt_price_x96.lo as nat * sqrt_price_x96.lo as nat;
            &&& token0 == weth ==> close(
                eth_usd_of(weth, token0, sqrt_price_x96),
                q * ten_power(18),
                pow2(192) * ten_power(6),
            )
            &&& token0 != weth ==> close(
                eth_usd_of(weth, token0, sqrt_price_x96),
                pow2(192) * ten_power(18),
                q * ten_power(6),
            )
        }),
{
    law_eth_price(sqrt_price_x96, 18, 6);
    law_eth_price(sqrt_price_x96, 6, 18);
}

} // verus!
