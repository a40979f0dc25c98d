//! Compact numbers and ages.
use vstd::arithmetic::power2::lemma_pow2_pos;
use vstd::prelude::*;
use vstd::string::*;

use crate::bounds::{lemma_one, lemma_ten_thousand, lemma_units_grow};
use crate::decimal::{fmt_num, thousands};
use crate::double::{at_most, of_nat, product_of, quotient_of, Double};
use crate::fixed::{rounded, scaled};
use crate::numbers::{
    BILLION, HUNDRED, MILLION, SECONDS_PER_DAY, SECONDS_PER_HOUR, SECONDS_PER_MONTH, SIXTY,
    TEN_THOUSAND, THOUSAND,
};
use crate::order::ONE;
use crate::rounding::INFINITE;
use crate::telegram::message::{number_text, numbered};

verus! {

pub open spec fn in_units(v: Double, unit: u64, d: nat, end: Seq<char>) -> Seq<char> {
    number_text("$"@, quotient_of(v, Double { bits: unit }), d, end)
}

pub open spec fn coarse(v: Double) -> Seq<char> {
    if at_most(Double { bits: BILLION }, v) {
        in_units(v, BILLION, 1, "B"@)
    } else if at_most(Double { bits: MILLION }, v) {
        in_units(v, MILLION, 1, "M"@)
    } else if at_most(Double { bits: THOUSAND }, v) {
        in_units(v, THOUSAND, 0, "K"@)
    } else {
        number_text("$"@, v, 0, ""@)
    }
}

/// An amount of USD, such as `$1.2M`, `$500K` or `$850`.
pub fn fmt_compact_nk(v: Double) -> (r: String)
    ensures
        r@ == coarse(v),
{
    if (Double { bits: BILLION }).no_more_than(v) {
        numbered("$", v.over(Double { bits: BILLION }), 1, "B")
    } else if (Double { bits: MILLION }).no_more_than(v) {
        numbered("$", v.over(Double { bits: MILLION }), 1, "M")
    } else if (Double { bits: THOUSAND }).no_more_than(v) {
        numbered("$", v.over(Double { bits: THOUSAND }), 0, "K")
    } else {
        numbered("$", v, 0, "")
    }
}

/// A number in some unit, with `d` decimals.
pub open spec fn counted(v: Double, unit: u64, d: nat, end: Seq<char>) -> Seq<char> {
    number_text(""@, quotient_of(v, Double { bits: unit }), d, end)
}

pub open spec fn compact(v: Double) -> Seq<char> {
    if at_most(Double { bits: BILLION }, v) {
        counted(v, BILLION, 2, "B"@)
    } else if at_most(Double { bits: MILLION }, v) {
        counted(v, MILLION, 2, "M"@)
    } else if at_most(Double { bits: TEN_THOUSAND }, v) {
        counted(v, THOUSAND, 1, "K"@)
    } else if at_most(Double { bits: ONE }, v) {
        thousands(scaled(v, 0))
    } else {
        "<1"@
    }
}

/// An amount of USD without its sign, such as `5.04M`, `45.1K`, `1,057` or `<1`.
pub fn fmt_compact(v: Double) -> (r: String)
    ensures
        r@ == compact(v),
{
    if (Double { bits: BILLION }).no_more_than(v) {
        numbered("", v.over(Double { bits: BILLION }), 2, "B")
    } else if (Double { bits: MILLION }).no_more_than(v) {
        numbered("", v.over(Double { bits: MILLION }), 2, "M")
    } else if (Double { bits: TEN_THOUSAND }).no_more_than(v) {
        numbered("", v.over(Double { bits: THOUSAND }), 1, "K")
    } else if (Double { bits: ONE }).no_more_than(v) {
        proof {
            lemma_one();
            lemma_ten_thousand();
            lemma_pow2_pos(1074);
            if v.negative() {
                assert(v.units() <= 0);
            }
            if v.magnitude() >= INFINITE {
                lemma_units_grow(TEN_THOUSAND as nat, v.magnitude());
            }
        }
        fmt_num(rounded(v))
    } else {
        String::from_str("<1")
    }
}

pub open spec fn average(vol: Double, buys: u64, sells: u64) -> Seq<char> {
    if buys + sells == 0 {
        "—"@
    } else {
        compact(quotient_of(vol, of_nat((buys + sells) as nat)))
    }
}

/// The average size of a trade.
pub fn avg_trade(vol: Double, buys: u64, sells: u64) -> (r: String)
    requires
        buys + sells <= u64::MAX,
    ensures
        r@ == average(vol, buys, sells),
{
    let txns: u64 = buys + sells;
    if txns == 0 {
        String::from_str("—")
    } else {
        fmt_compact(vol.over(Double::from_u64(txns)))
    }
}

pub open spec fn share_of_day(window_vol: Double, h24_vol: Double) -> Seq<char> {
    if at_most(h24_vol, Double { bits: 0 }) {
        "—"@
    } else {
        number_text(
            ""@,
            product_of(quotient_of(window_vol, h24_vol), Double { bits: HUNDRED }),
            1,
            "%"@,
        )
    }
}

/// The share of a shorter window in the volume of the last day.
pub fn pct_of_24h(window_vol: Double, h24_vol: Double) -> (r: String)
    ensures
        r@ == share_of_day(window_vol, h24_vol),
{
    if h24_vol.no_more_than(Double { bits: 0 }) {
        String::from_str("—")
    } else {
        numbered("", window_vol.over(h24_vol).times(Double { bits: HUNDRED }), 1, "%")
    }
}

/// A word for a flag.
pub fn fmt_bool(v: Option<bool>, yes: &str, no: &str, unknown: &str) -> (r: String)
    ensures
        r@ == (match v {
            Some(true) => yes@,
            Some(false) => no@,
            None => unknown@,
        }),
{
    match v {
        Some(true) => String::from_str(yes),
        Some(false) => String::from_str(no),
        None => String::from_str(unknown),
    }
}

/// How many seconds ago something was created; none of it where the clock is behind.
pub open spec fn seconds_since(created_ms: Option<u64>, now_ms: u64) -> Option<u64> {
    match created_ms {
        Some(ms) => Some(
            (if now_ms >= ms {
                (now_ms - ms) / 1000
            } else {
                0
            }) as u64,
        ),
        None => None,
    }
}

/// How many seconds ago something was created, by two moments in milliseconds.
pub fn age_seconds(created_ms: Option<u64>, now_ms: u64) -> (r: Option<u64>)
    ensures
        r == seconds_since(created_ms, now_ms),
{
    match created_ms {
        Some(ms) => Some(
            if now_ms >= ms {
                (now_ms - ms) / 1000
            } else {
                0
            },
        ),
        None => None,
    }
}

pub open spec fn time_in(s: u64, unit: u64, d: nat, end: Seq<char>) -> Seq<char> {
    number_text(""@, quotient_of(of_nat(s as nat), Double { bits: unit }), d, end)
}

pub open spec fn coarse_age(age: Option<u64>) -> Seq<char> {
    match age {
        None => "?"@,
        Some(s) => if s < 60 {
            "<1m"@
        } else if s < 3600 {
            time_in(s, SIXTY, 0, "m"@)
        } else if s < 86400 {
            time_in(s, SECONDS_PER_HOUR, 0, "h"@)
        } else {
            time_in(s, SECONDS_PER_DAY, 0, "d"@)
        },
    }
}

/// An age in whole minutes, hours or days.
pub fn short_age(age: Option<u64>) -> (r: String)
    ensures
        r@ == coarse_age(age),
{
    match age {
        None => String::from_str("?"),
        Some(s) => if s < 60 {
            String::from_str("<1m")
        } else if s < 3600 {
            numbered("", Double::from_u64(s).over(Double { bits: SIXTY }), 0, "m")
        } else if s < 86400 {
            numbered("", Double::from_u64(s).over(Double { bits: SECONDS_PER_HOUR }), 0, "h")
        } else {
            numbered("", Double::from_u64(s).over(Double { bits: SECONDS_PER_DAY }), 0, "d")
        },
    }
}

pub open spec fn age_text(age: Option<u64>) -> Seq<char> {
    match age {
        None => "unknown"@,
        Some(s) => if s < 60 {
            "<1m"@
        } else if s < 3600 {
            time_in(s, SIXTY, 0, "m"@)
        } else if s < 86400 {
            time_in(s, SECONDS_PER_HOUR, 1, "h"@)
        } else if s < 2_592_000 {
            time_in(s, SECONDS_PER_DAY, 0, "d"@)
        } else {
            time_in(s, SECONDS_PER_MONTH, 1, "mo"@)
        },
    }
}

/// The age of something that was created at a moment in milliseconds.
pub fn format_age_ms(pair_created_at_ms: Option<u64>, now_ms: u64) -> (r: String)
    ensures
        r@ == age_text(seconds_since(pair_created_at_ms, now_ms)),
{
    match age_seconds(pair_created_at_ms, now_ms) {
        None => String::from_str("unknown"),
        Some(s) => if s < 60 {
            String::from_str("<1m")
        } else if s < 3600 {
            numbered("", Double::from_u64(s).over(Double { bits: SIXTY }), 0, "m")
        } else if s < 86400 {
            numbered("", Double::from_u64(s).over(Double { bits: SECONDS_PER_HOUR }), 1, "h")
        } else if s < 2_592_000 {
            numbered("", Double::from_u64(s).over(Double { bits: SECONDS_PER_DAY }), 0, "d")
        } else {
            numbered("", Double::from_u64(s).over(Double { bits: SECONDS_PER_MONTH }), 1, "mo")
        },
    }
}

} // verus!
