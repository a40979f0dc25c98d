//! Volume spikes: a recent window of blocks against the one before it.
use vstd::prelude::*;

use crate::chain::pools::BlockRange;
use crate::config::AppConfig;
use crate::double::{
    at_most, clamped_part, less, of_nat, one_units, product_of, quotient_of, Double,
};
use crate::models::VolumeSpike;
use crate::numbers::{FIFTY, TWENTY_FOUR};
use crate::order::{larger_of, lemma_units_increase};
use crate::rounding::{nearest_magnitude, INFINITE};

verus! {

pub open spec fn volume_floor(cfg: AppConfig) -> Double {
    larger_of(
        quotient_of(cfg.screening.min_volume_24h_usd, Double { bits: TWENTY_FOUR }),
        Double { bits: FIFTY },
    )
}

/// The volume below which a window counts as noise: an hour's share of the screening
/// minimum, but at least $50.
pub fn min_meaningful_volume_usd(cfg: &AppConfig) -> (r: Double)
    ensures
        r == volume_floor(*cfg),
{
    cfg.screening.min_volume_24h_usd.over(Double { bits: TWENTY_FOUR }).larger(
        Double { bits: FIFTY },
    )
}

pub open spec fn spike_window(cfg: AppConfig) -> nat {
    clamped_part(
        product_of(
            cfg.monitoring.volume_spike_window_hours,
            of_nat(cfg.monitoring.approx_blocks_per_hour as nat),
        ),
        u64::MAX as nat,
    )
}

/// How many blocks a window has; also how long a pool's spike alerts are held back.
pub fn spike_window_blocks(cfg: &AppConfig) -> (r: u64)
    ensures
        r == spike_window(*cfg),
{
    cfg.monitoring.volume_spike_window_hours.times(
        Double::from_u64(cfg.monitoring.approx_blocks_per_hour),
    ).to_u64()
}

/// The two windows whose volumes are compared.
#[derive(Debug, Clone, Copy, PartialEq, Eq, Structural)]
pub struct SpikeWindows {
    pub recent: BlockRange,
    pub previous: BlockRange,
}

pub open spec fn down_to_zero(a: int, b: int) -> u64 {
    if a < b {
        0
    } else {
        (a - b) as u64
    }
}

/// The two windows, if the pool is old enough to have both.
pub open spec fn windows_of(window: nat, created_block: u64, current_block: u64) -> Option<
    SpikeWindows,
> {
    let recent_from = down_to_zero(current_block as int, window as int);
    let previous_from = down_to_zero(current_block as int, (2 * window) as int);
    if window == 0 || previous_from < created_block {
        None
    } else {
        Some(
            SpikeWindows {
                recent: BlockRange { from: recent_from, to: current_block },
                previous: BlockRange {
                    from: previous_from,
                    to: down_to_zero(recent_from as int, 1),
                },
            },
        )
    }
}

/// The two windows to compare: none where a window has no blocks or the pool is not
/// old enough to have both.
pub fn spike_windows(cfg: &AppConfig, created_block: u64, current_block: u64) -> (r: Option<
    SpikeWindows,
>)
    requires
        2 * spike_window(*cfg) <= u64::MAX,
    ensures
        r == windows_of(spike_window(*cfg), created_block, current_block),
{
    let window: u64 = spike_window_blocks(cfg);
    if window == 0 {
        return None;
    }
    let recent_from: u64 = current_block.saturating_sub(window);
    let previous_from: u64 = current_block.saturating_sub(window * 2);
    if previous_from < created_block {
        return None;
    }
    Some(
        SpikeWindows {
            recent: BlockRange { from: recent_from, to: current_block },
            previous: BlockRange { from: previous_from, to: recent_from.saturating_sub(1) },
        },
    )
}

/// How many times the earlier volume the recent one is; where there was none, how
/// many times the floor.
pub open spec fn spike_ratio(cfg: AppConfig, recent: Double, previous: Double) -> Double {
    if less(Double { bits: 0 }, previous) {
        quotient_of(recent, previous)
    } else {
        quotient_of(recent, volume_floor(cfg))
    }
}

/// Whether there is a spike: the recent volume is meaningful, and large enough against
/// the previous one, if there was any.
pub open spec fn spikes(cfg: AppConfig, recent: Double, previous: Double) -> bool {
    &&& at_most(volume_floor(cfg), recent)
    &&& less(Double { bits: 0 }, previous) ==> at_most(
        cfg.monitoring.volume_spike_multiplier,
        spike_ratio(cfg, recent, previous),
    )
}

pub open spec fn spike_of(cfg: AppConfig, recent: Double, previous: Double) -> Option<VolumeSpike> {
    if spikes(cfg, recent, previous) {
        Some(
            VolumeSpike {
                recent_volume_usd: recent,
                previous_volume_usd: previous,
                ratio: spike_ratio(cfg, recent, previous),
            },
        )
    } else {
        None
    }
}

/// The spike, if the recent volume is meaningful and large enough against the
/// previous one. Where there was no previous volume, any meaningful recent volume is
/// a spike, and its ratio is taken against the floor.
pub fn check_volume_spike(cfg: &AppConfig, recent: Double, previous: Double) -> (r: Option<
    VolumeSpike,
>)
    ensures
        r == spike_of(*cfg, recent, previous),
{
    let floor = min_meaningful_volume_usd(cfg);
    if !floor.no_more_than(recent) {
        return None;
    }
    if (Double { bits: 0 }).less_than(previous) {
        let ratio = recent.over(previous);
        if cfg.monitoring.volume_spike_multiplier.no_more_than(ratio) {
            Some(VolumeSpike { recent_volume_usd: recent, previous_volume_usd: previous, ratio })
        } else {
            None
        }
    } else {
        let ratio = recent.over(floor);
        Some(VolumeSpike { recent_volume_usd: recent, previous_volume_usd: previous, ratio })
    }
}

/// The windows end at the current block, lie one right behind the other, have the
/// same length and start no earlier than the pool, where the chain is at least two
/// windows long.
pub proof fn law_windows_are_adjacent(window: nat, created_block: u64, current_block: u64)
    requires
        window > 0,
        2 * window <= current_block,
    ensures
        windows_of(window, created_block, current_block) is Some <==> created_block + 2 * window
            <= current_block,
        windows_of(window, created_block, current_block) matches Some(w) ==> w.recent.to
            == current_block && w.recent.from == current_block - window && w.previous.to
            == w.recent.from - 1 && w.previous.from == w.recent.from - window && w.previous.from
            >= created_block,
{
}

/// A spike is meaningful volume, at least $50 and at least an hour's share of the
/// screening minimum, that is enough times the volume before it; where there was none
/// before, any meaningful volume is one. More recent volume never ends a spike that is
/// measured against the same floor.
pub proof fn law_spike_is_meaningful(cfg: AppConfig, recent: Double, previous: Double)
    ensures
        spike_of(cfg, recent, previous) matches Some(spike) ==> {
            &&& spike.recent_volume_usd == recent
            &&& spike.previous_volume_usd == previous
            &&& at_most(volume_floor(cfg), recent)
            &&& less(Double { bits: 0 }, previous) ==> spike.ratio == quotient_of(recent, previous)
                && at_most(cfg.monitoring.volume_spike_multiplier, spike.ratio)
        },
        !less(Double { bits: 0 }, previous) && at_most(volume_floor(cfg), recent) ==> spike_of(
            cfg,
            recent,
            previous,
        ) is Some,
        less(recent, volume_floor(cfg)) ==> spike_of(cfg, recent, previous) is None,
{
}

/// The floor is never below $50, nor below an hour's share of the screening minimum.
pub proof fn law_floor_bounds(cfg: AppConfig)
    requires
        !cfg.screening.min_volume_24h_usd.nan(),
    ensures
        at_most(Double { bits: FIFTY }, volume_floor(cfg)),
        at_most(
            quotient_of(cfg.screening.min_volume_24h_usd, Double { bits: TWENTY_FOUR }),
            volume_floor(cfg),
        ),
        volume_floor(cfg) == (Double { bits: FIFTY }) || volume_floor(cfg) == quotient_of(
            cfg.screening.min_volume_24h_usd,
            Double { bits: TWENTY_FOUR },
        ),
{
    let x = cfg.screening.min_volume_24h_usd;
    let y = Double { bits: TWENTY_FOUR };
    lemma_units_increase(0, y.magnitude());
    let m = nearest_magnitude(x.size() * one_units(), y.size());
    assert(m <= INFINITE);
    assert(!quotient_of(x, y).nan());
}

} // verus!
