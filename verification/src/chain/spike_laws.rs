//! What volume spikes are, in exact fractions.
use vstd::arithmetic::power2::{lemma2_to64, lemma2_to64_rest, lemma_pow2_pos};
use vstd::prelude::*;

use crate::bounds::{
    lemma_magnitude_at_least, lemma_magnitude_at_most, lemma_small_units, lemma_units_grow,
};
use crate::chain::metric_laws::{lemma_part_up_to, part_up_to};
use crate::chain::spike::{spike_of, spike_window, volume_floor};
use crate::chain::value_laws::usual;
use crate::closeness::{
    close, lemma_close, lemma_integer, lemma_near_integer, lemma_near_of_nat, lemma_near_product,
    lemma_near_quotient, lemma_near_same, lemma_near_self, lemma_near_weaken, near,
};
use crate::config::AppConfig;
use crate::double::{of_nat, one_units, product_of, quotient_of, Double};
use crate::monotone::lemma_plain_order;
use crate::numbers::{FIFTY, TWENTY_FOUR};
use crate::rounding::{nearest_magnitude, INFINITE};

verus! {

proof fn lemma_floor(cfg: AppConfig)
    requires
        usual(cfg.screening.min_volume_24h_usd),
    ensures
        ({
            let least = cfg.screening.min_volume_24h_usd.size();
            near(
                volume_floor(cfg),
                if least >= 1_200 * one_units() {
                    least
                } else {
                    1_200 * one_units()
                },
                24 * one_units(),
                2,
                133,
            )
        }),
        volume_floor(cfg).size() > 0,
{
    let u = one_units();
    let x = cfg.screening.min_volume_24h_usd;
    let a = x.size();
    let day = Double { bits: TWENTY_FOUR };
    let fifty = Double { bits: FIFTY };
    let q = quotient_of(x, day);
    lemma_pow2_pos(1074);
    lemma2_to64();
    lemma2_to64_rest();
    lemma_integer(TWENTY_FOUR, 24, 48);
    lemma_near_integer(day, 24, 5);
    lemma_integer(FIFTY, 50, 47);
    lemma_near_integer(fifty, 50, 6);
    lemma_near_self(x, 128);
    lemma_near_quotient(x, a, u, 0, 128, day, 24, 1, 0, 5);
    assert(a * 1 == a && u * 24 == 24 * u);
    let m = nearest_magnitude(a * u, 24 * u);
    assert(m <= INFINITE);
    assert(q.magnitude() == m);
    assert((50 * u) * (24 * u) == (1_200 * u) * u) by (nonlinear_arith);
    lemma_plain_order(q, fifty);
    lemma_plain_order(fifty, q);
    if a >= 1_200 * u {
        assert((1_200 * u) * u <= a * u) by (nonlinear_arith)
            requires
                a >= 1_200 * u,
        ;
        lemma_magnitude_at_least(a * u, 24 * u, FIFTY as nat);
        lemma_units_grow(FIFTY as nat, m);
        assert(volume_floor(cfg) == q);
    } else {
        assert(a * u <= (1_200 * u) * u) by (nonlinear_arith)
            requires
                a <= 1_200 * u,
        ;
        lemma_magnitude_at_most(a * u, 24 * u, FIFTY as nat);
        assert(volume_floor(cfg) == fifty);
        assert(50 * (24 * u) == (1_200 * u) * 1);
        lemma_near_same(fifty, 50, 1, 0, 6, 1_200 * u, 24 * u);
        lemma_near_weaken(fifty, 1_200 * u, 24 * u, 0, 6, 2, 133);
    }
}

/// The floor is an hour's share of the screening minimum, a twenty-fourth, or $50, where
/// that is more.
pub proof fn law_floor_in_numbers(cfg: AppConfig)
    requires
        usual(cfg.screening.min_volume_24h_usd),
    ensures
        ({
            let least = cfg.screening.min_volume_24h_usd.size();
            close(
                volume_floor(cfg),
                if least >= 1_200 * one_units() {
                    least
                } else {
                    1_200 * one_units()
                },
                24 * one_units(),
            )
        }),
{
    let least = cfg.screening.min_volume_24h_usd.size();
    lemma_floor(cfg);
    lemma_close(
        volume_floor(cfg),
        if least >= 1_200 * one_units() {
            least
        } else {
            1_200 * one_units()
        },
        24 * one_units(),
        2,
        133,
    );
}

/// The ratio of a spike is the recent volume against the one before it, or against the
/// floor where there was none.
pub proof fn law_spike_ratio_in_numbers(cfg: AppConfig, recent: Double, previous: Double)
    requires
        usual(recent),
        usual(previous),
        usual(cfg.screening.min_volume_24h_usd),
    ensures
        spike_of(cfg, recent, previous) matches Some(spike) ==> {
            let least = cfg.screening.min_volume_24h_usd.size();
            &&& previous.size() > 0 ==> close(spike.ratio, recent.size(), previous.size())
            &&& previous.size() == 0 ==> close(
                spike.ratio,
                recent.size() * 24,
                if least >= 1_200 * one_units() {
                    least
                } else {
                    1_200 * one_units()
                },
            )
        },
{
    let u = one_units();
    let r = recent.size();
    lemma_pow2_pos(1074);
    lemma_small_units(0);
    lemma_near_self(recent, 128);
    if previous.size() > 0 {
        let p = previous.size();
        lemma_near_self(previous, 128);
        lemma_near_quotient(recent, r, u, 0, 128, previous, p, u, 0, 128);
        assert((r * u) * p == r * (u * p)) by (nonlinear_arith);
        lemma_near_same(quotient_of(recent, previous), r * u, u * p, 2, 256, r, p);
        lemma_close(quotient_of(recent, previous), r, p, 2, 256);
    } else {
        let least = cfg.screening.min_volume_24h_usd.size();
        let f: nat = if least >= 1_200 * u {
            least
        } else {
            1_200 * u
        };
        lemma_floor(cfg);
        let floor = volume_floor(cfg);
        lemma_near_quotient(recent, r, u, 0, 128, floor, f, 24 * u, 2, 133);
        assert((r * (24 * u)) * f == (r * 24) * (u * f)) by (nonlinear_arith);
        lemma_near_same(quotient_of(recent, floor), r * (24 * u), u * f, 4, 261, r * 24, f);
        lemma_close(quotient_of(recent, floor), r * 24, f, 4, 261);
    }
}

/// A window has as many blocks as its hours have, by the blocks of an hour.
pub proof fn law_window_in_blocks(cfg: AppConfig)
    requires
        usual(cfg.monitoring.volume_spike_window_hours),
    ensures
        part_up_to(
            spike_window(cfg),
            cfg.monitoring.volume_spike_window_hours.size()
                * cfg.monitoring.approx_blocks_per_hour as nat,
            one_units(),
            u64::MAX as nat,
        ),
{
    let u = one_units();
    let h = cfg.monitoring.volume_spike_window_hours;
    let b = cfg.monitoring.approx_blocks_per_hour as nat;
    lemma2_to64();
    lemma2_to64_rest();
    lemma_near_self(h, 128);
    lemma_near_of_nat(b, 64);
    lemma_near_product(h, h.size(), u, 0, 128, of_nat(b), b, 1, 1, 64);
    assert(u * 1 == u);
    lemma_part_up_to(product_of(h, of_nat(b)), h.size() * b, u, 3, 192, u64::MAX as nat);
}

} // verus!
