//! What the scanning and the monitoring loop decide.
use vstd::prelude::*;

use crate::address::Address;
use crate::chain::pools::{ends_of, law_chunks_cover, planned, ScanPlan};
use crate::chain::spike::{spike_window, spike_window_blocks};
use crate::config::AppConfig;
use crate::double::{at_most, negation_of, Double};
use crate::models::{PoolInfo, Position, VolumeSpike};
use crate::storage::{too_soon, StateFile, Storage};
use crate::telegram::alerts::{
    close_data, send_spike_alert, send_tp_sl_alert, spike_text, tp_sl_text,
};
use crate::telegram::message::OutMessage;

verus! {

/// The block that a scan starts at, given the last one that was noted.
pub open spec fn scan_start(last: u64, cfg: AppConfig) -> int {
    if last == 0 {
        cfg.chain.factory_deployment_block as int
    } else {
        last + 1
    }
}

/// The block that a scan starts at: the one after the last that was scanned, or the
/// factory's first.
pub fn scan_from_block(storage: &Storage, cfg: &AppConfig) -> (r: u64)
    requires
        storage.state.last_scanned_block < u64::MAX,
    ensures
        r == scan_start(storage.state.last_scanned_block, *cfg),
{
    let last: u64 = storage.last_scanned_block();
    if last == 0 {
        cfg.chain.factory_deployment_block
    } else {
        last + 1
    }
}

/// The last block that lies before each of the first `n` of `blocks` and is not
/// beyond `stop`; zero where one of them is the very first.
pub open spec fn held_back(stop: u64, blocks: Seq<u64>, n: nat) -> u64
    decreases n,
{
    if n == 0 {
        stop
    } else {
        let before = held_back(stop, blocks, (n - 1) as nat);
        let block = blocks[n - 1];
        if block > before {
            before
        } else if block == 0 {
            0
        } else {
            (block - 1) as u64
        }
    }
}

/// The block to note after a scan: the one that it stopped at, but one before the
/// first pool whose alert could not be sent, so that this pool is found again. Where
/// nothing was scanned, what was noted before.
pub open spec fn noted_block(last: u64, plan: ScanPlan, unsent: Seq<u64>) -> u64 {
    if plan.ranges@.len() == 0 {
        last
    } else {
        held_back(plan.stop, unsent, unsent.len())
    }
}

/// The block to note after a scan, given the blocks of the pools that passed but whose
/// alerts could not be sent.
pub fn block_to_note(last: u64, plan: &ScanPlan, unsent: &Vec<u64>) -> (r: u64)
    ensures
        r == noted_block(last, *plan, unsent@),
{
    if plan.ranges.len() == 0 {
        return last;
    }
    let mut r: u64 = plan.stop;
    let mut i: usize = 0;
    while i < unsent.len()
        invariant
            i <= unsent@.len(),
            r == held_back(plan.stop, unsent@, i as nat),
        decreases unsent@.len() - i,
    {
        let block: u64 = unsent[i];
        if block <= r {
            r = block.saturating_sub(1);
        }
        i = i + 1;
    }
    r
}

/// Notes how far a scan went.
pub fn conclude_scan(storage: &mut Storage, plan: &ScanPlan, unsent: &Vec<u64>)
    requires
        old(storage).state.wf(),
    ensures
        final(storage).state.wf(),
        final(storage).state == (StateFile {
            last_scanned_block: noted_block(
                old(storage).state.last_scanned_block,
                *plan,
                unsent@,
            ),
            ..old(storage).state
        }),
{
    let block: u64 = block_to_note(storage.last_scanned_block(), plan, unsent);
    storage.set_last_scanned_block(block);
}

/// What is held back lies before each of the blocks, but for the very first ones, and
/// not beyond the stop; it is the last such block.
pub proof fn law_held_back_before_all(stop: u64, blocks: Seq<u64>, n: nat)
    requires
        n <= blocks.len(),
    ensures
        held_back(stop, blocks, n) <= stop,
        forall|i: int|
            0 <= i < n ==> held_back(stop, blocks, n) < #[trigger] blocks[i] || held_back(
                stop,
                blocks,
                n,
            ) == 0,
        held_back(stop, blocks, n) == stop || exists|i: int|
            0 <= i < n && (#[trigger] blocks[i]) <= held_back(stop, blocks, n) + 1,
    decreases n,
{
    if n > 0 {
        law_held_back_before_all(stop, blocks, (n - 1) as nat);
        let before = held_back(stop, blocks, (n - 1) as nat);
        if blocks[n - 1] > before {
            if before != stop {
                let i = choose|i: int|
                    0 <= i < n - 1 && (#[trigger] blocks[i]) <= before + 1;
                assert(blocks[i] <= before + 1);
            }
        } else {
            assert(blocks[n - 1] <= held_back(stop, blocks, n) + 1);
        }
    }
}

/// A pool that passed but whose alert could not be sent is scanned again: the next
/// scan starts no later than the pool's block.
pub proof fn law_unsent_pool_is_scanned_again(
    last: u64,
    cfg: AppConfig,
    plan: ScanPlan,
    unsent: Seq<u64>,
    i: int,
)
    requires
        plan.ranges@.len() > 0,
        0 <= i < unsent.len(),
        cfg.chain.factory_deployment_block <= unsent[i],
    ensures
        scan_start(noted_block(last, plan, unsent), cfg) <= unsent[i],
{
    law_held_back_before_all(plan.stop, unsent, unsent.len());
}

/// Where every alert was sent, scans leave no block out: the next one starts right
/// after the last block of this one, or where this one started if the chain had not
/// got there yet.
pub proof fn law_no_block_is_left_out(last: u64, cfg: AppConfig, latest: u64, plan: ScanPlan)
    requires
        scan_start(last, cfg) <= u64::MAX,
        0 < latest,
        ends_of(plan.ranges@) == planned(scan_start(last, cfg), latest as int).0,
        plan.stop == planned(scan_start(last, cfg), latest as int).1,
    ensures
        scan_start(noted_block(last, plan, Seq::empty()), cfg) == (if scan_start(last, cfg)
            <= latest {
            latest + 1
        } else {
            scan_start(last, cfg)
        }),
{
    let start = scan_start(last, cfg);
    assert(ends_of(plan.ranges@).len() == plan.ranges@.len());
    if start <= latest {
        law_chunks_cover(start, latest as int);
    }
}

/// Whether a pool that was found is to be screened: it is not on record yet.
pub open spec fn screening_due(state: StateFile, pool: Address) -> bool {
    !state.alerted().contains(pool)
}

/// Whether a pool that was found is to be screened: it is not on record yet.
pub fn should_screen(storage: &Storage, pool: Address) -> (r: bool)
    ensures
        r == !storage.state.alerted().contains(pool),
        r == screening_due(storage.state, pool),
{
    !storage.already_alerted(pool)
}

/// Notes the outcome of screening a pool. A pool that passed, but whose alert could
/// not be sent, is not noted; it is to be found again.
pub fn conclude_screening(
    storage: &mut Storage,
    pool: Address,
    passed: bool,
    alert_sent: bool,
) -> (again: bool)
    requires
        old(storage).state.wf(),
    ensures
        again == (passed && !alert_sent),
        final(storage).state.wf(),
        final(storage).state.alerted() == alerted_after(
            old(storage).state,
            pool,
            passed,
            alert_sent,
        ),
        screening_due(final(storage).state, pool) == (again && screening_due(
            old(storage).state,
            pool,
        )),
        final(storage).state == (StateFile {
            alerted_pools: final(storage).state.alerted_pools,
            ..old(storage).state
        }),
{
    if !passed || alert_sent {
        storage.mark_alerted(pool);
        false
    } else {
        true
    }
}

/// A limit that a position's profit or loss has reached.
#[derive(Debug, Clone, Copy, PartialEq, Eq, Structural)]
pub enum Hit {
    TakeProfit,
    StopLoss,
}

impl Hit {
    pub open spec fn name(self) -> Seq<char> {
        match self {
            Hit::TakeProfit => "Take-profit"@,
            Hit::StopLoss => "Stop-loss"@,
        }
    }

    /// The limit's name.
    pub fn text(self) -> (r: &'static str)
        ensures
            r@ == self.name(),
    {
        match self {
            Hit::TakeProfit => "Take-profit",
            Hit::StopLoss => "Stop-loss",
        }
    }
}

pub open spec fn hit_of(cfg: AppConfig, pnl_percent: Double) -> Option<Hit> {
    if at_most(cfg.monitoring.take_profit_percent, pnl_percent) {
        Some(Hit::TakeProfit)
    } else if at_most(pnl_percent, negation_of(cfg.monitoring.stop_loss_percent)) {
        Some(Hit::StopLoss)
    } else {
        None
    }
}

/// The limit that a position's profit or loss has reached, if any.
pub fn limit_hit(cfg: &AppConfig, pnl_percent: Double) -> (r: Option<Hit>)
    ensures
        r == hit_of(*cfg, pnl_percent),
{
    if cfg.monitoring.take_profit_percent.no_more_than(pnl_percent) {
        Some(Hit::TakeProfit)
    } else if pnl_percent.no_more_than(cfg.monitoring.stop_loss_percent.negated()) {
        Some(Hit::StopLoss)
    } else {
        None
    }
}

/// A position's pool, as far as it is on record.
pub fn pool_of(position: &Position) -> (r: PoolInfo)
    ensures
        r == (PoolInfo {
            address: position.pool_address,
            token0: position.token0,
            token1: position.token1,
            fee: position.fee,
            created_block: position.pool_created_block,
            created_timestamp: 0,
        }),
{
    PoolInfo {
        address: position.pool_address,
        token0: position.token0,
        token1: position.token1,
        fee: position.fee,
        created_block: position.pool_created_block,
        created_timestamp: 0,
    }
}

/// What is to be done next for a position.
#[derive(Debug)]
pub enum MonitorAction {
    ComputePnl,
    SendLimitAlert { message: OutMessage },
    CheckSpike,
    SendSpikeAlert { message: OutMessage },
    NextPosition,
}

/// Whether a position's profit or loss is still to be compared with the limits: no
/// alert was sent yet.
pub open spec fn limits_due(state: StateFile, position: Position) -> bool {
    !state.tpsl().contains(position.token_id)
}

/// Whether a position's pool is to be checked for a volume spike: the last alert is
/// long enough ago.
pub open spec fn spike_due(state: StateFile, cfg: AppConfig, position: Position, block: u64) -> bool {
    !(state.spikes().dom().contains(position.pool_address) && too_soon(
        state.spikes()[position.pool_address],
        block,
        spike_window(cfg) as u64,
    ))
}

/// Whether an action goes on to the volume check, or past it where that is not due.
pub open spec fn goes_on(
    action: MonitorAction,
    state: StateFile,
    cfg: AppConfig,
    position: Position,
    block: u64,
) -> bool {
    if spike_due(state, cfg, position, block) {
        action is CheckSpike
    } else {
        action is NextPosition
    }
}

fn go_on(storage: &Storage, cfg: &AppConfig, position: &Position, block: u64) -> (r: MonitorAction)
    requires
        storage.state.wf(),
    ensures
        goes_on(r, storage.state, *cfg, *position, block),
{
    if storage.spike_alert_on_cooldown(position.pool_address, block, spike_window_blocks(cfg)) {
        MonitorAction::NextPosition
    } else {
        MonitorAction::CheckSpike
    }
}

/// Whether an action is the first step for an open position.
pub open spec fn first_step(
    action: MonitorAction,
    state: StateFile,
    cfg: AppConfig,
    position: Position,
    block: u64,
) -> bool {
    if limits_due(state, position) {
        action is ComputePnl
    } else {
        goes_on(action, state, cfg, position, block)
    }
}

/// Whether an action is the step after a position's profit or loss was computed.
pub open spec fn step_after_pnl(
    action: MonitorAction,
    state: StateFile,
    cfg: AppConfig,
    position: Position,
    block: u64,
    pnl_percent: Option<Double>,
) -> bool {
    match pnl_percent {
        Some(pct) => match hit_of(cfg, pct) {
            Some(hit) => action matches MonitorAction::SendLimitAlert { message } && message.offers(
                tp_sl_text(position, pct, hit.name()),
                "🔴 Close position"@,
                close_data(position.token_id),
            ),
            None => goes_on(action, state, cfg, position, block),
        },
        None => goes_on(action, state, cfg, position, block),
    }
}

/// Whether an action is the step after the volume check.
pub open spec fn step_after_spike(
    action: MonitorAction,
    position: Position,
    spike: Option<VolumeSpike>,
) -> bool {
    match spike {
        Some(s) => action matches MonitorAction::SendSpikeAlert { message } && message.offers(
            spike_text(position, s),
            "🔴 Close position"@,
            close_data(position.token_id),
        ),
        None => action is NextPosition,
    }
}

/// The first step for an open position.
pub fn monitor_position(storage: &Storage, cfg: &AppConfig, position: &Position, block: u64) -> (r:
    MonitorAction)
    requires
        storage.state.wf(),
    ensures
        if limits_due(storage.state, *position) {
            r is ComputePnl
        } else {
            goes_on(r, storage.state, *cfg, *position, block)
        },
        first_step(r, storage.state, *cfg, *position, block),
{
    if storage.already_tpsl_alerted(position.token_id) {
        go_on(storage, cfg, position, block)
    } else {
        MonitorAction::ComputePnl
    }
}

/// The step after a position's profit or loss was computed, if that was possible: an
/// alert where it has reached a limit.
pub fn after_pnl(
    storage: &Storage,
    cfg: &AppConfig,
    position: &Position,
    block: u64,
    pnl_percent: Option<Double>,
) -> (r: MonitorAction)
    requires
        storage.state.wf(),
    ensures
        match pnl_percent {
            Some(pct) => match hit_of(*cfg, pct) {
                Some(hit) => r matches MonitorAction::SendLimitAlert { message } && message.offers(
                    tp_sl_text(*position, pct, hit.name()),
                    "🔴 Close position"@,
                    close_data(position.token_id),
                ),
                None => goes_on(r, storage.state, *cfg, *position, block),
            },
            None => goes_on(r, storage.state, *cfg, *position, block),
        },
        step_after_pnl(r, storage.state, *cfg, *position, block, pnl_percent),
{
    match pnl_percent {
        Some(pct) => match limit_hit(cfg, pct) {
            Some(hit) => MonitorAction::SendLimitAlert {
                message: send_tp_sl_alert(position, pct, hit.text()),
            },
            None => go_on(storage, cfg, position, block),
        },
        None => go_on(storage, cfg, position, block),
    }
}

/// The step after an alert on a limit, which is noted if it was sent.
pub fn after_limit_alert(
    storage: &mut Storage,
    cfg: &AppConfig,
    position: &Position,
    block: u64,
    sent: bool,
) -> (r: MonitorAction)
    requires
        old(storage).state.wf(),
    ensures
        final(storage).state.wf(),
        final(storage).state.tpsl() == (if sent {
            old(storage).state.tpsl().insert(position.token_id)
        } else {
            old(storage).state.tpsl()
        }),
        final(storage).state == (StateFile {
            tpsl_alerted: final(storage).state.tpsl_alerted,
            ..old(storage).state
        }),
        goes_on(r, final(storage).state, *cfg, *position, block),
{
    if sent {
        storage.mark_tpsl_alerted(position.token_id);
    }
    go_on(storage, cfg, position, block)
}

/// The step after the volume check: an alert where there is a spike.
pub fn after_spike_check(position: &Position, spike: Option<VolumeSpike>) -> (r: MonitorAction)
    ensures
        match spike {
            Some(s) => r matches MonitorAction::SendSpikeAlert { message } && message.offers(
                spike_text(*position, s),
                "🔴 Close position"@,
                close_data(position.token_id),
            ),
            None => r is NextPosition,
        },
        step_after_spike(r, *position, spike),
{
    match spike {
        Some(s) => MonitorAction::SendSpikeAlert { message: send_spike_alert(position, &s) },
        None => MonitorAction::NextPosition,
    }
}

/// Notes an alert on a spike, if it was sent.
pub fn after_spike_alert(storage: &mut Storage, position: &Position, block: u64, sent: bool)
    requires
        old(storage).state.wf(),
    ensures
        final(storage).state.wf(),
        final(storage).state.spikes() == (if sent {
            old(storage).state.spikes().insert(position.pool_address, block)
        } else {
            old(storage).state.spikes()
        }),
        final(storage).state == (StateFile {
            last_spike_alert_block: final(storage).state.last_spike_alert_block,
            ..old(storage).state
        }),
{
    if sent {
        storage.mark_spike_alerted(position.pool_address, block);
    }
}

/// The pools on record after a screening.
pub open spec fn alerted_after(
    before: StateFile,
    pool: Address,
    passed: bool,
    alert_sent: bool,
) -> Set<Address> {
    if !passed || alert_sent {
        before.alerted().insert(pool)
    } else {
        before.alerted()
    }
}

/// A pool is screened to an end once: after its alert was sent or it was refused it is
/// never due again, however many pools are screened after it. A pool that passed but
/// whose alert could not be sent stays due.
pub proof fn law_pool_alert_is_sent_once(
    before: StateFile,
    after: StateFile,
    pool: Address,
    passed: bool,
    alert_sent: bool,
)
    requires
        after.alerted() == alerted_after(before, pool, passed, alert_sent),
    ensures
        !passed || alert_sent ==> !screening_due(after, pool),
        passed && !alert_sent ==> screening_due(after, pool) == screening_due(before, pool),
        forall|other: Address|
            other != pool ==> #[trigger] screening_due(after, other) == screening_due(
                before,
                other,
            ),
        forall|other: Address|
            !screening_due(before, other) ==> !#[trigger] screening_due(after, other),
{
}

/// A position's limit alert is sent once: after it is noted, it is never due again.
pub proof fn law_limit_alert_is_sent_once(before: StateFile, after: StateFile, position: Position)
    requires
        after.tpsl() == before.tpsl().insert(position.token_id),
    ensures
        !limits_due(after, position),
{
}

/// A pool's spike alert holds the next one back for as many blocks as a window has.
pub proof fn law_spike_alert_holds_the_next_back(
    before: StateFile,
    after: StateFile,
    cfg: AppConfig,
    position: Position,
    sent_at: u64,
    block: u64,
)
    requires
        after.spikes() == before.spikes().insert(position.pool_address, sent_at),
        sent_at <= block,
    ensures
        spike_due(after, cfg, position, block) <==> block >= sent_at + spike_window(cfg),
{
}

/// A profit that is not a number reaches no limit.
pub proof fn law_no_limit_without_a_number(cfg: AppConfig, pnl_percent: Double)
    requires
        pnl_percent.nan(),
    ensures
        hit_of(cfg, pnl_percent) is None,
{
}

/// A limit is hit exactly where the profit has reached it: the profit limit from below,
/// the loss limit, which is configured as a positive number, from above; the profit limit
/// comes first.
pub proof fn law_limits_are_hit_when_reached(cfg: AppConfig, pnl_percent: Double)
    requires
        !pnl_percent.nan(),
        !cfg.monitoring.take_profit_percent.nan(),
        !cfg.monitoring.stop_loss_percent.nan(),
    ensures
        hit_of(cfg, pnl_percent) == Some(Hit::TakeProfit) <==> pnl_percent.units()
            >= cfg.monitoring.take_profit_percent.units(),
        hit_of(cfg, pnl_percent) == Some(Hit::StopLoss) <==> pnl_percent.units()
            < cfg.monitoring.take_profit_percent.units() && pnl_percent.units()
            + cfg.monitoring.stop_loss_percent.units() <= 0,
        hit_of(cfg, pnl_percent) is None <==> pnl_percent.units()
            < cfg.monitoring.take_profit_percent.units() && pnl_percent.units()
            + cfg.monitoring.stop_loss_percent.units() > 0,
{
    let s = cfg.monitoring.stop_loss_percent;
    let n = negation_of(s);
    assert(n.magnitude() == s.magnitude() && n.negative() == !s.negative());
}

/// Monitoring a position goes in this order: its profit is computed while no limit alert
/// was sent for it; an alert that names the limit is sent exactly where the profit has
/// reached one; and its pool is checked for a spike unless the last alert holds that back.
/// A profit that could not be computed reaches no limit.
pub proof fn law_monitoring_in_order(
    action: MonitorAction,
    state: StateFile,
    cfg: AppConfig,
    position: Position,
    block: u64,
    pnl_percent: Double,
)
    requires
        !pnl_percent.nan(),
        !cfg.monitoring.take_profit_percent.nan(),
        !cfg.monitoring.stop_loss_percent.nan(),
    ensures
        first_step(action, state, cfg, position, block) ==> (action is ComputePnl
            <==> !state.tpsl().contains(position.token_id)),
        first_step(action, state, cfg, position, block) ==> action is ComputePnl || action
            is CheckSpike || action is NextPosition,
        step_after_pnl(action, state, cfg, position, block, Some(pnl_percent)) ==> (action
            is SendLimitAlert <==> pnl_percent.units()
            >= cfg.monitoring.take_profit_percent.units() || pnl_percent.units()
            + cfg.monitoring.stop_loss_percent.units() <= 0),
        step_after_pnl(action, state, cfg, position, block, None) ==> action is CheckSpike || action
            is NextPosition,
        !state.spikes().dom().contains(position.pool_address) && goes_on(
            action,
            state,
            cfg,
            position,
            block,
        ) ==> action is CheckSpike,
        state.spikes().dom().contains(position.pool_address)
            && state.spikes()[position.pool_address] <= block && goes_on(
            action,
            state,
            cfg,
            position,
            block,
        ) ==> (action is NextPosition <==> block < state.spikes()[position.pool_address]
            + spike_window(cfg)),
{
    law_limits_are_hit_when_reached(cfg, pnl_percent);
}

/// An alert on a position names its limit, tells that position's own profit, and offers to
/// close that position.
pub proof fn law_alerts_are_about_their_position(
    action: MonitorAction,
    state: StateFile,
    cfg: AppConfig,
    position: Position,
    block: u64,
    pnl_percent: Double,
    spike: VolumeSpike,
)
    ensures
        action is SendLimitAlert && step_after_pnl(
            action,
            state,
            cfg,
            position,
            block,
            Some(pnl_percent),
        ) ==> action->SendLimitAlert_message.offers(
            tp_sl_text(
                position,
                pnl_percent,
                if at_most(cfg.monitoring.take_profit_percent, pnl_percent) {
                    "Take-profit"@
                } else {
                    "Stop-loss"@
                },
            ),
            "🔴 Close position"@,
            close_data(position.token_id),
        ),
        step_after_spike(action, position, Some(spike)) ==> action is SendSpikeAlert,
        step_after_spike(action, position, None) ==> action is NextPosition,
{
}

} // verus!
