//! Prices against WETH and the "$1 reference asset".
use vstd::arithmetic::power2::{lemma2_to64, lemma_pow2_adds, lemma_pow2_pos, pow2};
use vstd::prelude::*;
use vstd::string::*;

use crate::address::{two_128, Address, U256};
use crate::config::{AppConfig, References};
use crate::double::{negation_of, of_nat, one_units, product_of, quotient_of, Double};
use crate::numbers::TWO_96;
use crate::order::{power_of_ten, ten_to, ONE};
use crate::rounding::{lemma_pow2_127, pinned, round_magnitude};

verus! {

/// Decimals taken for the "$1 reference asset" when pricing ETH.
pub const STABLE_DECIMALS_FALLBACK: u8 = 6;

/// Decimals of WETH.
pub const WETH_DECIMALS: u8 = 18;

/// The fee tiers in which a pool is looked for, in order.
pub open spec fn common_fee_tiers() -> Seq<u32> {
    seq![500u32, 3000, 10000, 100]
}

/// What a search for a pool comes to next.
#[derive(Debug, Clone, Copy, PartialEq, Eq, Structural)]
pub enum FeeSearch {
    /// Ask the factory for the pool of this tier.
    Ask { fee: u32 },
    Found { fee: u32 },
    NotFound,
}

/// The place of the first pool from `from` on that exists.
pub open spec fn first_pool(answers: Seq<Address>, from: nat) -> Option<nat>
    decreases answers.len() - from,
{
    if from >= answers.len() {
        None
    } else if answers[from as int] != Address::zero() {
        Some(from)
    } else {
        first_pool(answers, from + 1)
    }
}

/// How the search stands after the factory's first answers.
pub open spec fn search_after(answers: Seq<Address>) -> FeeSearch {
    match first_pool(answers, 0) {
        Some(i) => FeeSearch::Found { fee: common_fee_tiers()[i as int] },
        None => if answers.len() < common_fee_tiers().len() {
            FeeSearch::Ask { fee: common_fee_tiers()[answers.len() as int] }
        } else {
            FeeSearch::NotFound
        },
    }
}

fn fee_tier(i: usize) -> (r: u32)
    requires
        i < common_fee_tiers().len(),
    ensures
        r == common_fee_tiers()[i as int],
{
    if i == 0 {
        500
    } else if i == 1 {
        3000
    } else if i == 2 {
        10000
    } else {
        100
    }
}

/// The search for the fee tier of a pool between two tokens, given what the factory
/// answered for the first tiers: a pool's address, or zero where there is none or
/// the call failed.
pub fn find_pool_fee(answers: &Vec<Address>) -> (r: FeeSearch)
    requires
        answers@.len() <= common_fee_tiers().len(),
    ensures
        r == search_after(answers@),
{
    let mut i: usize = 0;
    while i < answers.len()
        invariant
            i <= answers@.len() <= common_fee_tiers().len(),
            first_pool(answers@, 0) == first_pool(answers@, i as nat),
        decreases answers@.len() - i,
    {
        if !answers[i].is_zero() {
            return FeeSearch::Found { fee: fee_tier(i) };
        }
        i = i + 1;
    }
    if answers.len() < 4 {
        FeeSearch::Ask { fee: fee_tier(answers.len()) }
    } else {
        FeeSearch::NotFound
    }
}

proof fn lemma_first_pool(answers: Seq<Address>, from: nat)
    requires
        from <= answers.len(),
    ensures
        match first_pool(answers, from) {
            Some(i) => from <= i < answers.len() && answers[i as int] != Address::zero() && forall|
                j: int,
            |
                from <= j < i ==> answers[j] == Address::zero(),
            None => forall|j: int| from <= j < answers.len() ==> answers[j] == Address::zero(),
        },
    decreases answers.len() - from,
{
    if from < answers.len() && answers[from as int] == Address::zero() {
        lemma_first_pool(answers, from + 1);
    }
}

/// The tier found is the first one, in the order of the tiers, in which a pool
/// exists; nothing is found exactly if none exists in any tier.
pub proof fn law_first_existing_tier(answers: Seq<Address>)
    requires
        answers.len() <= common_fee_tiers().len(),
    ensures
        search_after(answers) is Found <==> exists|i: int|
            0 <= i < answers.len() && answers[i] != Address::zero(),
        forall|i: int|
            0 <= i < answers.len() && answers[i] != Address::zero() && (forall|j: int|
                0 <= j < i ==> answers[j] == Address::zero()) ==> search_after(answers)
                == (FeeSearch::Found { fee: #[trigger] common_fee_tiers()[i] }),
        search_after(answers) is NotFound <==> answers.len() == common_fee_tiers().len() && forall|
            i: int,
        |
            0 <= i < answers.len() ==> answers[i] == Address::zero(),
{
    lemma_first_pool(answers, 0);
}

/// While no pool was found, the tiers are asked for one after the other, each once: those
/// of 0.05%, 0.3%, 1% and 0.01%.
pub proof fn law_every_tier_is_asked_once(answers: Seq<Address>)
    requires
        forall|i: int| 0 <= i < answers.len() ==> (#[trigger] answers[i]) == Address::zero(),
    ensures
        answers.len() == 0 ==> search_after(answers) == (FeeSearch::Ask { fee: 500 }),
        answers.len() == 1 ==> search_after(answers) == (FeeSearch::Ask { fee: 3_000 }),
        answers.len() == 2 ==> search_after(answers) == (FeeSearch::Ask { fee: 10_000 }),
        answers.len() == 3 ==> search_after(answers) == (FeeSearch::Ask { fee: 100 }),
        answers.len() >= 4 ==> search_after(answers) is NotFound,
{
    lemma_first_pool(answers, 0);
}

/// `sqrtPriceX96` as a number.
pub open spec fn sqrt_ratio(sqrt_price_x96: U256) -> Double {
    quotient_of(of_nat(sqrt_price_x96.lo as nat), Double { bits: TWO_96 })
}

/// `sqrtPriceX96` as a number.
pub fn sqrt_ratio_of(sqrt_price_x96: U256) -> (r: Double)
    requires
        sqrt_price_x96.hi == 0,
    ensures
        r == sqrt_ratio(sqrt_price_x96),
{
    Double::from_u128(sqrt_price_x96.lo).over(Double { bits: TWO_96 })
}

/// The price of token0 in units of token1, in whole tokens.
pub open spec fn price_of_0_in_1(sqrt_price_x96: U256, decimals0: u8, decimals1: u8) -> Double {
    product_of(
        product_of(sqrt_ratio(sqrt_price_x96), sqrt_ratio(sqrt_price_x96)),
        ten_to(decimals0 - decimals1),
    )
}

/// The price of token0 in units of token1, in whole tokens.
pub fn price_1_per_0(sqrt_price_x96: U256, decimals0: u8, decimals1: u8) -> (r: Double)
    requires
        sqrt_price_x96.hi == 0,
    ensures
        r == price_of_0_in_1(sqrt_price_x96, decimals0, decimals1),
{
    let sqrt_price = sqrt_ratio_of(sqrt_price_x96);
    sqrt_price.times(sqrt_price).times(power_of_ten(decimals0 as i32 - decimals1 as i32))
}

pub open spec fn usd_per_eth(
    sqrt_price_x96: U256,
    decimals0: u8,
    decimals1: u8,
    weth_is_token0: bool,
) -> Double {
    if weth_is_token0 {
        price_of_0_in_1(sqrt_price_x96, decimals0, decimals1)
    } else {
        quotient_of(
            Double { bits: ONE },
            price_of_0_in_1(sqrt_price_x96, decimals0, decimals1),
        )
    }
}

/// The price of the ETH-like token of a pool in its USD-like token. The decimals are
/// those of token0 and token1.
pub fn sqrt_price_x96_to_price(
    sqrt_price_x96: U256,
    decimals0: u8,
    decimals1: u8,
    weth_is_token0: bool,
) -> (r: Double)
    requires
        sqrt_price_x96.hi == 0,
    ensures
        r == usd_per_eth(sqrt_price_x96, decimals0, decimals1, weth_is_token0),
{
    let price = price_1_per_0(sqrt_price_x96, decimals0, decimals1);
    if weth_is_token0 {
        price
    } else {
        Double { bits: ONE }.over(price)
    }
}

pub open spec fn eth_usd_of(weth: Address, token0: Address, sqrt_price_x96: U256) -> Double {
    if token0 == weth {
        usd_per_eth(sqrt_price_x96, WETH_DECIMALS, STABLE_DECIMALS_FALLBACK, true)
    } else {
        usd_per_eth(sqrt_price_x96, STABLE_DECIMALS_FALLBACK, WETH_DECIMALS, false)
    }
}

/// The price of ETH in USD, from the price of a pool of WETH and the "$1 reference
/// asset" whose first token is `token0`.
pub fn eth_price_usd(weth: Address, token0: Address, sqrt_price_x96: U256) -> (r: Double)
    requires
        sqrt_price_x96.hi == 0,
    ensures
        r == (if token0 == weth {
            usd_per_eth(sqrt_price_x96, WETH_DECIMALS, STABLE_DECIMALS_FALLBACK, true)
        } else {
            usd_per_eth(sqrt_price_x96, STABLE_DECIMALS_FALLBACK, WETH_DECIMALS, false)
        }),
        r == eth_usd_of(weth, token0, sqrt_price_x96),
{
    if token0 == weth {
        sqrt_price_x96_to_price(sqrt_price_x96, WETH_DECIMALS, STABLE_DECIMALS_FALLBACK, true)
    } else {
        sqrt_price_x96_to_price(sqrt_price_x96, STABLE_DECIMALS_FALLBACK, WETH_DECIMALS, false)
    }
}

/// A token's symbol and decimals; `???` and 18 where it does not tell.
pub fn token_info(symbol: Option<String>, decimals: Option<u8>) -> (r: (String, u8))
    ensures
        r.0@ == (match symbol {
            Some(s) => s@,
            None => "???"@,
        }),
        r.1 == (match decimals {
            Some(d) => d,
            None => 18u8,
        }),
{
    let text = match symbol {
        Some(s) => s,
        None => String::from_str("???"),
    };
    let places: u8 = match decimals {
        Some(d) => d,
        None => 18,
    };
    (text, places)
}

/// The side of a pool whose USD price is known.
#[derive(Debug, Clone, Copy, PartialEq, Eq, Structural)]
pub struct KnownSide {
    pub is_token0: bool,
    pub price_usd: Double,
}

pub open spec fn known_side_of(
    references: References,
    token0: Address,
    token1: Address,
    eth_usd: Double,
) -> Option<KnownSide> {
    if token0 == references.weth {
        Some(KnownSide { is_token0: true, price_usd: eth_usd })
    } else if token1 == references.weth {
        Some(KnownSide { is_token0: false, price_usd: eth_usd })
    } else if token0 == references.usdg {
        Some(KnownSide { is_token0: true, price_usd: Double { bits: ONE } })
    } else if token1 == references.usdg {
        Some(KnownSide { is_token0: false, price_usd: Double { bits: ONE } })
    } else {
        None
    }
}

/// The side of a pool whose USD price is known: WETH before the "$1 reference
/// asset", token0 before token1.
pub fn known_side(references: References, token0: Address, token1: Address, eth_usd: Double) -> (r:
    Option<KnownSide>)
    ensures
        r == known_side_of(references, token0, token1, eth_usd),
{
    if token0 == references.weth {
        Some(KnownSide { is_token0: true, price_usd: eth_usd })
    } else if token1 == references.weth {
        Some(KnownSide { is_token0: false, price_usd: eth_usd })
    } else if token0 == references.usdg {
        Some(KnownSide { is_token0: true, price_usd: Double { bits: ONE } })
    } else if token1 == references.usdg {
        Some(KnownSide { is_token0: false, price_usd: Double { bits: ONE } })
    } else {
        None
    }
}

/// The USD prices of a pool's two tokens, from the one that is known and the pool's
/// price.
pub open spec fn both_prices(known: KnownSide, price_1_per_0: Double) -> (Double, Double) {
    if known.is_token0 {
        (known.price_usd, quotient_of(known.price_usd, price_1_per_0))
    } else {
        (product_of(known.price_usd, price_1_per_0), known.price_usd)
    }
}

/// The USD prices of a pool's two tokens, if there are any.
pub open spec fn pool_prices(
    references: Option<References>,
    token0: Address,
    token1: Address,
    decimals0: u8,
    decimals1: u8,
    eth_usd: Double,
    sqrt_price_x96: Option<U256>,
) -> Option<(Double, Double)> {
    match references {
        Some(refs) => match (known_side_of(refs, token0, token1, eth_usd), sqrt_price_x96) {
            (Some(known), Some(s)) => Some(
                both_prices(known, price_of_0_in_1(s, decimals0, decimals1)),
            ),
            _ => None,
        },
        None => None,
    }
}

/// The USD prices of a pool's two tokens, given its price if that could be read:
/// none where neither token is a reference asset.
pub fn price_pool_tokens(
    cfg: &AppConfig,
    token0: Address,
    token1: Address,
    decimals0: u8,
    decimals1: u8,
    eth_usd: Double,
    sqrt_price_x96: Option<U256>,
) -> (r: Option<(Double, Double)>)
    requires
        sqrt_price_x96 matches Some(s) ==> s.hi == 0,
    ensures
        r == pool_prices(
            cfg.reference_assets(),
            token0,
            token1,
            decimals0,
            decimals1,
            eth_usd,
            sqrt_price_x96,
        ),
{
    match cfg.references() {
        Some(refs) => match (known_side(refs, token0, token1, eth_usd), sqrt_price_x96) {
            (Some(known), Some(s)) => {
                let price = price_1_per_0(s, decimals0, decimals1);
                if known.is_token0 {
                    Some((known.price_usd, known.price_usd.over(price)))
                } else {
                    Some((known.price_usd.times(price), known.price_usd))
                }
            },
            _ => None,
        },
        None => None,
    }
}

/// A pool without a reference asset on either side has no prices.
pub proof fn law_unpriceable_without_reference(
    references: References,
    token0: Address,
    token1: Address,
    decimals0: u8,
    decimals1: u8,
    eth_usd: Double,
    sqrt_price_x96: Option<U256>,
)
    requires
        token0 != references.weth,
        token0 != references.usdg,
        token1 != references.weth,
        token1 != references.usdg,
    ensures
        pool_prices(
            Some(references),
            token0,
            token1,
            decimals0,
            decimals1,
            eth_usd,
            sqrt_price_x96,
        ) is None,
{
}

/// A signed 256-bit amount.
#[derive(Debug, Clone, Copy, PartialEq, Eq, Structural)]
pub struct I256 {
    pub negative: bool,
    pub size: U256,
}

/// The number nearest to a signed amount.
pub open spec fn nearest_to(v: I256) -> Double {
    if v.negative && v.size.value() > 0 {
        negation_of(of_nat(v.size.value()))
    } else {
        of_nat(v.size.value())
    }
}

proof fn lemma_pinned(v: nat, m: nat, k: nat, rest: nat)
    requires
        v == m * pow2(k) + rest,
        rest < pow2(k),
    ensures
        pinned(v * one_units(), 1, m, (1074 + k) as int, rest != 0),
{
    lemma_pow2_pos(1074);
    lemma_pow2_pos(k);
    lemma_pow2_adds(1074, k);
    let u = one_units();
    let p = pow2(k);
    let up = pow2(1074 + k);
    assert(m * up == (m * p) * u) by (nonlinear_arith)
        requires
            up == u * p,
    ;
    assert((m + 1) * up == (m * p + p) * u) by (nonlinear_arith)
        requires
            up == u * p,
    ;
    assert(v * u == (m * p) * u + rest * u) by (nonlinear_arith)
        requires
            v == m * p + rest,
    ;
    assert((m * p + p) * u == (m * p) * u + p * u) by (nonlinear_arith);
    assert(rest * u < p * u) by (nonlinear_arith)
        requires
            rest < p,
            u > 0,
    ;
    assert(rest * u >= 0 && (rest * u == 0 <==> rest == 0)) by (nonlinear_arith)
        requires
            u > 0,
    ;
    assert(up * 1 == up);
    assert(v * u * 1 == v * u);
}

/// The number nearest to an amount.
pub fn amount_to_double(v: U256) -> (r: Double)
    ensures
        r == of_nat(v.value()),
{
    if v.hi == 0 {
        return Double::from_u128(v.lo);
    }
    proof {
        lemma2_to64();
        lemma_pow2_127();
        lemma_pow2_adds(127, 2);
        assert(pow2(64) == 0x1_0000_0000_0000_0000) by {
            lemma_pow2_adds(32, 32);
        }
        assert(pow2(129) == 2 * two_128());
    }
    if v.hi < 0x8000_0000_0000_0000 {
        let m: u128 = v.hi * 0x1_0000_0000_0000_0000 + v.lo / 0x1_0000_0000_0000_0000;
        let rest: u128 = v.lo % 0x1_0000_0000_0000_0000;
        proof {
            lemma_pinned(v.value(), m as nat, 64, rest as nat);
        }
        Double::with_sign(
            false,
            round_magnitude(
                m,
                1138,
                rest != 0,
                Ghost(v.value() * one_units()),
                Ghost(1nat),
            ),
        )
    } else {
        let m: u128 = v.hi / 2;
        let odd: bool = v.hi % 2 == 1;
        proof {
            let rest = (v.hi % 2) as nat * two_128() + v.lo as nat;
            lemma_pinned(v.value(), m as nat, 129, rest);
        }
        Double::with_sign(
            false,
            round_magnitude(
                m,
                1203,
                odd || v.lo != 0,
                Ghost(v.value() * one_units()),
                Ghost(1nat),
            ),
        )
    }
}

/// The number nearest to a signed amount.
pub fn i256_to_f64(v: I256) -> (r: Double)
    ensures
        r == nearest_to(v),
{
    let size = amount_to_double(v.size);
    if v.negative && !v.size.is_zero() {
        size.negated()
    } else {
        size
    }
}

} // verus!
