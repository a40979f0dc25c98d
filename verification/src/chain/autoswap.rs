//! Swapping the proceeds of a closed position into one asset.
use vstd::prelude::*;
use vstd::string::*;

use crate::address::{Address, U256};
use crate::chain::slippage::{least_out, minimum_out};
use crate::config::{AppConfig, References};

verus! {

/// A swap that was made.
#[derive(Debug)]
pub struct SwapResult {
    pub tx_hash: String,
    pub token_in: Address,
    pub amount_in: U256,
    pub amount_out: U256,
}

/// A leg that could not be converted: what is left of it in the wallet, and why.
#[derive(Debug)]
pub struct FailedLeg {
    pub stuck_token: Address,
    pub stuck_amount: U256,
    pub reason: String,
}

#[derive(Debug)]
pub struct AutoSwapOutcome {
    pub swaps: Vec<SwapResult>,
    pub failed_legs: Vec<FailedLeg>,
}

/// A swap to send.
#[derive(Debug, Clone, Copy, PartialEq, Eq, Structural)]
pub struct ExactInputSingleParams {
    pub token_in: Address,
    pub token_out: Address,
    pub fee: u32,
    pub recipient: Address,
    pub amount_in: U256,
    pub amount_out_minimum: U256,
    pub sqrt_price_limit_x96: U256,
}

/// What a single swap takes: an approval of this amount first, where one is needed,
/// and the swap.
#[derive(Debug, Clone, Copy, PartialEq, Eq, Structural)]
pub struct SwapOrder {
    pub approve: Option<U256>,
    pub params: ExactInputSingleParams,
}

/// A single swap, once the quoter has told what to expect of it.
pub open spec fn order_of(
    cfg: AppConfig,
    token_in: Address,
    token_out: Address,
    fee: u32,
    amount_in: U256,
    owner: Address,
    expected_out: U256,
    allowance: U256,
) -> SwapOrder {
    SwapOrder {
        approve: if allowance.value() < amount_in.value() {
            Some(amount_in)
        } else {
            None
        },
        params: ExactInputSingleParams {
            token_in,
            token_out,
            fee,
            recipient: owner,
            amount_in,
            amount_out_minimum: U256::of(least_out(expected_out.lo, cfg.wallet.slippage_bps)),
            sqrt_price_limit_x96: U256::of(0),
        },
    }
}

/// A single swap, once the quoter has told what to expect of it: at least the quote
/// less the slippage tolerance must come out. The router needs an approval where its
/// allowance is below the amount.
pub fn swap_single(
    cfg: &AppConfig,
    token_in: Address,
    token_out: Address,
    fee: u32,
    amount_in: U256,
    owner: Address,
    expected_out: U256,
    allowance: U256,
) -> (r: SwapOrder)
    requires
        expected_out.hi == 0,
    ensures
        r.approve == (if allowance.value() < amount_in.value() {
            Some(amount_in)
        } else {
            None
        }),
        r.params == (ExactInputSingleParams {
            token_in,
            token_out,
            fee,
            recipient: owner,
            amount_in,
            amount_out_minimum: U256::of(least_out(expected_out.lo, cfg.wallet.slippage_bps)),
            sqrt_price_limit_x96: U256::of(0),
        }),
        r == order_of(
            *cfg,
            token_in,
            token_out,
            fee,
            amount_in,
            owner,
            expected_out,
            allowance,
        ),
{
    let minimum: u128 = minimum_out(expected_out.lo, cfg.wallet.slippage_bps);
    SwapOrder {
        approve: if allowance.less_than(amount_in) {
            Some(amount_in)
        } else {
            None
        },
        params: ExactInputSingleParams {
            token_in,
            token_out,
            fee,
            recipient: owner,
            amount_in,
            amount_out_minimum: U256::from_u128(minimum),
            sqrt_price_limit_x96: U256::from_u128(0),
        },
    }
}

/// The record of a swap that was made: what went in, and what the quoter said would
/// come out.
pub fn swapped(tx_hash: String, token_in: Address, amount_in: U256, expected_out: U256) -> (r:
    SwapResult)
    ensures
        r == (SwapResult { tx_hash, token_in, amount_in, amount_out: expected_out }),
{
    SwapResult { tx_hash, token_in, amount_in, amount_out: expected_out }
}

/// One side of a closed position: what was collected, and what it was paired with.
#[derive(Debug, Clone, Copy, PartialEq, Eq, Structural)]
pub struct Leg {
    pub token: Address,
    pub amount: U256,
    pub other: Address,
}

/// Where the proceeds go: into `target`, where need be through `bridge`.
#[derive(Debug, Clone, Copy, PartialEq, Eq, Structural)]
pub struct Route {
    pub target: Address,
    pub bridge: Address,
    pub target_is_usdg: bool,
    /// Fee tier of the pool that was left.
    pub position_fee: u32,
}

/// What is being done for a leg.
#[derive(Debug, Clone, Copy, PartialEq, Eq, Structural)]
pub enum Stage {
    /// A pool of the bridge and the target is looked for.
    FindPool { amount: U256, second_hop: bool },
    /// The first hop, in the pool that was left.
    ToBridge { token: Address, amount: U256 },
    /// The swap that ends the leg.
    ToTarget { token: Address, amount: U256, fee: u32 },
}

/// What came of it.
#[derive(Debug)]
pub enum Event {
    /// The fee tier of a pool, if there is one; or why that could not be told.
    Pool { found: Result<Option<u32>, String> },
    Swap { result: Result<SwapResult, String> },
}

/// What is to be done next.
#[derive(Debug, Clone, Copy, PartialEq, Eq, Structural)]
pub enum Action {
    /// Look for a pool of two tokens.
    FindPool { token_a: Address, token_b: Address },
    Swap { token_in: Address, token_out: Address, fee: u32, amount_in: U256 },
    Finished,
}

/// A failed leg, with its reason as text.
pub struct Stuck {
    pub token: Address,
    pub amount: U256,
    pub reason: Seq<char>,
}

/// How far the conversion is: the legs that wait, what is being done for the current
/// one, and what came of the others.
pub struct Progress {
    pub waiting: Seq<Leg>,
    pub stage: Option<Stage>,
    pub swaps: Seq<SwapResult>,
    pub stuck: Seq<Stuck>,
}

/// How a leg begins.
pub enum Opening {
    /// There is nothing to convert.
    Nothing,
    Begin { stage: Stage },
    NoRoute,
}

/// How a leg begins: nothing is done for an empty leg or one in the target; the
/// bridge looks for a pool; any other token goes through the pool that was left.
pub open spec fn opening(route: Route, leg: Leg) -> Opening {
    if leg.amount.value() == 0 || leg.token == route.target {
        Opening::Nothing
    } else if leg.token == route.bridge {
        Opening::Begin { stage: Stage::FindPool { amount: leg.amount, second_hop: false } }
    } else if leg.other == route.target {
        Opening::Begin {
            stage: Stage::ToTarget {
                token: leg.token,
                amount: leg.amount,
                fee: route.position_fee,
            },
        }
    } else if leg.other == route.bridge {
        Opening::Begin { stage: Stage::ToBridge { token: leg.token, amount: leg.amount } }
    } else {
        Opening::NoRoute
    }
}

/// Why a leg without a reference asset is not converted.
pub open spec fn no_route_reason() -> Seq<char> {
    "pool doesn't pair with WETH or USDG on either side — no auto-route available"@
}

/// Why a leg ends where there is no pool of the bridge and the target.
pub open spec fn no_pool_reason(route: Route, second_hop: bool) -> Seq<char> {
    if route.target_is_usdg {
        if second_hop {
            "no WETH/USDG pool found to complete the two-hop swap"@
        } else {
            "no WETH/USDG pool found"@
        }
    } else {
        if second_hop {
            "no USDG/WETH pool found to complete the two-hop swap"@
        } else {
            "no USDG/WETH pool found"@
        }
    }
}

/// The progress once the legs that wait are opened, up to the first for which there
/// is something to do.
pub open spec fn opened(route: Route, p: Progress) -> Progress
    decreases p.waiting.len(),
{
    if p.stage is Some || p.waiting.len() == 0 {
        p
    } else {
        let leg = p.waiting[0];
        let rest = p.waiting.drop_first();
        match opening(route, leg) {
            Opening::Nothing => opened(route, Progress { waiting: rest, ..p }),
            Opening::Begin { stage } => Progress { waiting: rest, stage: Some(stage), ..p },
            Opening::NoRoute => opened(
                route,
                Progress {
                    waiting: rest,
                    stuck: p.stuck.push(
                        Stuck { token: leg.token, amount: leg.amount, reason: no_route_reason() },
                    ),
                    ..p
                },
            ),
        }
    }
}

/// Whether an event answers a stage.
pub open spec fn answers(stage: Stage, event: Event) -> bool {
    stage is FindPool <==> event is Pool
}

/// The current leg ended with something left over.
pub open spec fn ended_stuck(p: Progress, token: Address, amount: U256, reason: Seq<char>) -> Progress {
    Progress { stage: None, stuck: p.stuck.push(Stuck { token, amount, reason }), ..p }
}

/// The progress of the current leg after an event.
pub open spec fn settled(route: Route, p: Progress, event: Event) -> Progress {
    match (p.stage, event) {
        (Some(Stage::FindPool { amount, second_hop }), Event::Pool { found }) => match found {
            Ok(Some(fee)) => Progress {
                stage: Some(Stage::ToTarget { token: route.bridge, amount, fee }),
                ..p
            },
            Ok(None) => ended_stuck(p, route.bridge, amount, no_pool_reason(route, second_hop)),
            Err(e) => ended_stuck(p, route.bridge, amount, e@),
        },
        (Some(Stage::ToBridge { token, amount }), Event::Swap { result }) => match result {
            Ok(hop) => Progress {
                stage: Some(Stage::FindPool { amount: hop.amount_out, second_hop: true }),
                swaps: p.swaps.push(hop),
                ..p
            },
            Err(e) => ended_stuck(p, token, amount, e@),
        },
        (Some(Stage::ToTarget { token, amount, .. }), Event::Swap { result }) => match result {
            Ok(swap) => Progress { stage: None, swaps: p.swaps.push(swap), ..p },
            Err(e) => ended_stuck(p, token, amount, e@),
        },
        _ => p,
    }
}

/// The progress after an event.
pub open spec fn after(route: Route, p: Progress, event: Event) -> Progress {
    opened(route, settled(route, p, event))
}

/// What a stage asks to be done.
pub open spec fn action_for(route: Route, stage: Option<Stage>) -> Action {
    match stage {
        Some(Stage::FindPool { .. }) => Action::FindPool {
            token_a: route.bridge,
            token_b: route.target,
        },
        Some(Stage::ToBridge { token, amount }) => Action::Swap {
            token_in: token,
            token_out: route.bridge,
            fee: route.position_fee,
            amount_in: amount,
        },
        Some(Stage::ToTarget { token, amount, fee }) => Action::Swap {
            token_in: token,
            token_out: route.target,
            fee,
            amount_in: amount,
        },
        None => Action::Finished,
    }
}

pub open spec fn stuck_of(failed: Seq<FailedLeg>) -> Seq<Stuck> {
    failed.map_values(
        |f: FailedLeg|
            Stuck { token: f.stuck_token, amount: f.stuck_amount, reason: f.reason@ },
    )
}

/// The conversion of a closed position's two legs.
#[derive(Debug)]
pub struct AutoSwap {
    pub route: Route,
    pub waiting: Vec<Leg>,
    pub stage: Option<Stage>,
    pub swaps: Vec<SwapResult>,
    pub failed_legs: Vec<FailedLeg>,
}

impl AutoSwap {
    pub open spec fn progress(self) -> Progress {
        Progress {
            waiting: self.waiting@,
            stage: self.stage,
            swaps: self.swaps@,
            stuck: stuck_of(self.failed_legs@),
        }
    }

    fn fail(&mut self, token: Address, amount: U256, reason: String)
        ensures
            final(self).route == old(self).route,
            final(self).progress() == ended_stuck(old(self).progress(), token, amount, reason@),
    {
        self.failed_legs.push(
            FailedLeg { stuck_token: token, stuck_amount: amount, reason },
        );
        self.stage = None;
        assert(self.progress().stuck =~= ended_stuck(
            old(self).progress(),
            token,
            amount,
            reason@,
        ).stuck);
    }

    fn open_legs(&mut self)
        ensures
            final(self).route == old(self).route,
            final(self).progress() == opened(old(self).route, old(self).progress()),
    {
        while self.stage.is_none() && self.waiting.len() > 0
            invariant
                self.route == old(self).route,
                opened(self.route, self.progress()) == opened(
                    old(self).route,
                    old(self).progress(),
                ),
            decreases self.waiting@.len(),
        {
            let ghost p = self.progress();
            let leg = self.waiting.remove(0);
            assert(self.waiting@ =~= p.waiting.drop_first());
            if leg.amount.is_zero() || leg.token == self.route.target {
                // Nothing to convert.
            } else if leg.token == self.route.bridge {
                self.stage = Some(Stage::FindPool { amount: leg.amount, second_hop: false });
            } else if leg.other == self.route.target {
                self.stage = Some(
                    Stage::ToTarget {
                        token: leg.token,
                        amount: leg.amount,
                        fee: self.route.position_fee,
                    },
                );
            } else if leg.other == self.route.bridge {
                self.stage = Some(Stage::ToBridge { token: leg.token, amount: leg.amount });
            } else {
                self.fail(
                    leg.token,
                    leg.amount,
                    String::from_str(
                        "pool doesn't pair with WETH or USDG on either side — no auto-route available",
                    ),
                );
            }
        }
    }

    /// The conversion of two legs, at its first step.
    pub fn start(
        route: Route,
        token0: Address,
        amount0: U256,
        token1: Address,
        amount1: U256,
    ) -> (r: AutoSwap)
        ensures
            r.route == route,
            r.progress() == opened(
                route,
                both_legs(token0, amount0, token1, amount1),
            ),
    {
        let mut waiting: Vec<Leg> = Vec::new();
        waiting.push(Leg { token: token0, amount: amount0, other: token1 });
        waiting.push(Leg { token: token1, amount: amount1, other: token0 });
        let mut r = AutoSwap {
            route,
            waiting,
            stage: None,
            swaps: Vec::new(),
            failed_legs: Vec::new(),
        };
        assert(r.progress().waiting =~= both_legs(token0, amount0, token1, amount1).waiting);
        assert(r.progress().swaps =~= Seq::<SwapResult>::empty());
        assert(r.progress().stuck =~= Seq::<Stuck>::empty());
        r.open_legs();
        r
    }

    /// What is to be done next.
    pub fn action(&self) -> (r: Action)
        ensures
            r == action_for(self.route, self.stage),
    {
        match self.stage {
            Some(Stage::FindPool { .. }) => Action::FindPool {
                token_a: self.route.bridge,
                token_b: self.route.target,
            },
            Some(Stage::ToBridge { token, amount }) => Action::Swap {
                token_in: token,
                token_out: self.route.bridge,
                fee: self.route.position_fee,
                amount_in: amount,
            },
            Some(Stage::ToTarget { token, amount, fee }) => Action::Swap {
                token_in: token,
                token_out: self.route.target,
                fee,
                amount_in: amount,
            },
            None => Action::Finished,
        }
    }

    fn no_pool(&self, second_hop: bool) -> (r: String)
        ensures
            r@ == no_pool_reason(self.route, second_hop),
    {
        if self.route.target_is_usdg {
            if second_hop {
                String::from_str("no WETH/USDG pool found to complete the two-hop swap")
            } else {
                String::from_str("no WETH/USDG pool found")
            }
        } else {
            if second_hop {
                String::from_str("no USDG/WETH pool found to complete the two-hop swap")
            } else {
                String::from_str("no USDG/WETH pool found")
            }
        }
    }

    /// Takes in what came of the last action. What answers no action changes nothing.
    pub fn advance(&mut self, event: Event)
        ensures
            final(self).route == old(self).route,
            final(self).progress() == after(old(self).route, old(self).progress(), event),
    {
        let ghost p = self.progress();
        let bridge = self.route.bridge;
        match (self.stage, event) {
            (Some(Stage::FindPool { amount, second_hop }), Event::Pool { found }) => match found {
                Ok(Some(fee)) => {
                    self.stage = Some(Stage::ToTarget { token: bridge, amount, fee });
                },
                Ok(None) => {
                    let reason = self.no_pool(second_hop);
                    self.fail(bridge, amount, reason);
                },
                Err(e) => {
                    self.fail(bridge, amount, e);
                },
            },
            (Some(Stage::ToBridge { token, amount }), Event::Swap { result }) => match result {
                Ok(hop) => {
                    self.stage = Some(
                        Stage::FindPool { amount: hop.amount_out, second_hop: true },
                    );
                    self.swaps.push(hop);
                },
                Err(e) => {
                    self.fail(token, amount, e);
                },
            },
            (Some(Stage::ToTarget { token, amount, .. }), Event::Swap { result }) => match result {
                Ok(swap) => {
                    self.stage = None;
                    self.swaps.push(swap);
                },
                Err(e) => {
                    self.fail(token, amount, e);
                },
            },
            _ => {},
        }
        assert(self.progress() == settled(self.route, p, event));
        self.open_legs();
    }

    /// What came of the conversion.
    pub fn outcome(self) -> (r: AutoSwapOutcome)
        ensures
            r.swaps@ == self.progress().swaps,
            stuck_of(r.failed_legs@) == self.progress().stuck,
    {
        AutoSwapOutcome { swaps: self.swaps, failed_legs: self.failed_legs }
    }
}

/// Both legs, before anything is done.
pub open spec fn both_legs(token0: Address, amount0: U256, token1: Address, amount1: U256) -> Progress {
    Progress {
        waiting: seq![
            Leg { token: token0, amount: amount0, other: token1 },
            Leg { token: token1, amount: amount1, other: token0 },
        ],
        stage: None,
        swaps: Seq::empty(),
        stuck: Seq::empty(),
    }
}

pub open spec fn to_usdg(references: References, position_fee: u32) -> Route {
    Route {
        target: references.usdg,
        bridge: references.weth,
        target_is_usdg: true,
        position_fee,
    }
}

pub open spec fn to_weth(references: References, position_fee: u32) -> Route {
    Route {
        target: references.weth,
        bridge: references.usdg,
        target_is_usdg: false,
        position_fee,
    }
}

/// Whether a conversion starts along a route, or does not where there is none.
pub open spec fn starts(
    r: Option<AutoSwap>,
    route: Option<Route>,
    token0: Address,
    amount0: U256,
    token1: Address,
    amount1: U256,
) -> bool {
    match (r, route) {
        (Some(swap), Some(along)) => swap.route == along && swap.progress() == opened(
            along,
            both_legs(token0, amount0, token1, amount1),
        ),
        (None, None) => true,
        _ => false,
    }
}

/// Begins to swap both legs of a closed position into USDG: a leg in USDG is left
/// alone, WETH is swapped directly, any other token goes through the pool that was
/// left, where need be by way of WETH. None where the reference assets cannot be
/// read.
pub fn swap_proceeds_to_usdg(
    cfg: &AppConfig,
    token0: Address,
    amount0: U256,
    token1: Address,
    amount1: U256,
    position_fee: u32,
) -> (r: Option<AutoSwap>)
    ensures
        starts(
            r,
            match cfg.reference_assets() {
                Some(refs) => Some(to_usdg(refs, position_fee)),
                None => None,
            },
            token0,
            amount0,
            token1,
            amount1,
        ),
{
    match cfg.references() {
        Some(refs) => {
            let route = Route {
                target: refs.usdg,
                bridge: refs.weth,
                target_is_usdg: true,
                position_fee,
            };
            Some(AutoSwap::start(route, token0, amount0, token1, amount1))
        },
        None => None,
    }
}

/// Begins to swap both legs of a closed position into WETH: a leg in WETH is left
/// alone, USDG is swapped directly, any other token goes through the pool that was
/// left, where need be by way of USDG. None where the reference assets cannot be
/// read.
pub fn swap_proceeds_to_weth(
    cfg: &AppConfig,
    token0: Address,
    amount0: U256,
    token1: Address,
    amount1: U256,
    position_fee: u32,
) -> (r: Option<AutoSwap>)
    ensures
        starts(
            r,
            match cfg.reference_assets() {
                Some(refs) => Some(to_weth(refs, position_fee)),
                None => None,
            },
            token0,
            amount0,
            token1,
            amount1,
        ),
{
    match cfg.references() {
        Some(refs) => {
            let route = Route {
                target: refs.weth,
                bridge: refs.usdg,
                target_is_usdg: false,
                position_fee,
            };
            Some(AutoSwap::start(route, token0, amount0, token1, amount1))
        },
        None => None,
    }
}

/// Opening legs depends only on the legs, not on what came of earlier ones.
proof fn lemma_opened_ignores_results(route: Route, p: Progress, q: Progress)
    requires
        p.waiting == q.waiting,
        p.stage == q.stage,
    ensures
        opened(route, p).waiting == opened(route, q).waiting,
        opened(route, p).stage == opened(route, q).stage,
    decreases p.waiting.len(),
{
    if p.stage is None && p.waiting.len() > 0 {
        let leg = p.waiting[0];
        let rest = p.waiting.drop_first();
        match opening(route, leg) {
            Opening::Nothing => {
                lemma_opened_ignores_results(
                    route,
                    Progress { waiting: rest, ..p },
                    Progress { waiting: rest, ..q },
                );
            },
            Opening::Begin { stage } => {},
            Opening::NoRoute => {
                let s = Stuck { token: leg.token, amount: leg.amount, reason: no_route_reason() };
                lemma_opened_ignores_results(
                    route,
                    Progress { waiting: rest, stuck: p.stuck.push(s), ..p },
                    Progress { waiting: rest, stuck: q.stuck.push(s), ..q },
                );
            },
        }
    }
}

/// A leg's failure is isolated: whatever ends a leg, a swap or a failure, the rest
/// goes on in the same way.
pub proof fn law_failure_is_isolated(route: Route, p: Progress, e1: Event, e2: Event)
    requires
        p.stage is Some,
        answers(p.stage->0, e1),
        answers(p.stage->0, e2),
        settled(route, p, e1).stage is None,
        settled(route, p, e2).stage is None,
    ensures
        after(route, p, e1).waiting == after(route, p, e2).waiting,
        after(route, p, e1).stage == after(route, p, e2).stage,
{
    lemma_opened_ignores_results(route, settled(route, p, e1), settled(route, p, e2));
}

/// Every leg that is begun is accounted for once: the event that ends it records
/// either one swap or one failure, and an event that does not end it records no
/// failure.
pub proof fn law_every_leg_is_accounted_for(route: Route, p: Progress, event: Event)
    requires
        p.stage is Some,
        answers(p.stage->0, event),
    ensures
        settled(route, p, event).stage is None ==> settled(route, p, event).swaps.len()
            + settled(route, p, event).stuck.len() == p.swaps.len() + p.stuck.len() + 1,
        settled(route, p, event).stage is Some ==> settled(route, p, event).stuck == p.stuck,
        p.swaps.is_prefix_of(settled(route, p, event).swaps),
        p.stuck.is_prefix_of(settled(route, p, event).stuck),
{
}

/// What a stage has in hand.
pub open spec fn in_hand(route: Route, stage: Stage) -> (Address, U256) {
    match stage {
        Stage::FindPool { amount, .. } => (route.bridge, amount),
        Stage::ToBridge { token, amount } => (token, amount),
        Stage::ToTarget { token, amount, .. } => (token, amount),
    }
}

/// What is reported as stuck is what the leg had in hand when it failed: its own
/// token and amount, or the bridge asset that the first hop brought.
pub proof fn law_stuck_is_what_is_in_hand(route: Route, p: Progress, event: Event)
    requires
        p.stage is Some,
        answers(p.stage->0, event),
        settled(route, p, event).stuck.len() > p.stuck.len(),
    ensures
        settled(route, p, event).stuck.last().token == in_hand(route, p.stage->0).0,
        settled(route, p, event).stuck.last().amount == in_hand(route, p.stage->0).1,
{
}

/// How many events a stage can still take.
pub open spec fn steps_left(stage: Option<Stage>) -> nat {
    match stage {
        Some(Stage::ToBridge { .. }) => 3,
        Some(Stage::FindPool { .. }) => 2,
        Some(Stage::ToTarget { .. }) => 1,
        None => 0,
    }
}

proof fn lemma_opened_steps(route: Route, p: Progress)
    ensures
        3 * opened(route, p).waiting.len() + steps_left(opened(route, p).stage) <= 3
            * p.waiting.len() + steps_left(p.stage),
    decreases p.waiting.len(),
{
    if p.stage is None && p.waiting.len() > 0 {
        let leg = p.waiting[0];
        let rest = p.waiting.drop_first();
        match opening(route, leg) {
            Opening::Nothing => {
                lemma_opened_steps(route, Progress { waiting: rest, ..p });
            },
            Opening::Begin { stage } => {},
            Opening::NoRoute => {
                let s = Stuck { token: leg.token, amount: leg.amount, reason: no_route_reason() };
                lemma_opened_steps(
                    route,
                    Progress { waiting: rest, stuck: p.stuck.push(s), ..p },
                );
            },
        }
    }
}

/// The conversion ends: every event that answers it brings it closer to the end, so
/// a leg takes three actions at most.
pub proof fn law_conversion_ends(route: Route, p: Progress, event: Event)
    requires
        p.stage is Some,
        answers(p.stage->0, event),
    ensures
        3 * after(route, p, event).waiting.len() + steps_left(after(route, p, event).stage) < 3
            * p.waiting.len() + steps_left(p.stage),
{
    lemma_opened_steps(route, settled(route, p, event));
}

/// How many of the legs there is something to do for.
pub open spec fn to_convert(route: Route, legs: Seq<Leg>) -> nat
    decreases legs.len(),
{
    if legs.len() == 0 {
        0
    } else {
        to_convert(route, legs.drop_first()) + (if opening(route, legs[0]) is Nothing {
            0nat
        } else {
            1
        })
    }
}

/// The records of a conversion, and those that are still to come.
pub open spec fn tally(route: Route, p: Progress) -> nat {
    p.swaps.len() + p.stuck.len() + to_convert(route, p.waiting) + (if p.stage is Some {
        1nat
    } else {
        0
    })
}

/// Whether an event is the first of two hops, done.
pub open spec fn first_hop(p: Progress, event: Event) -> bool {
    p.stage matches Some(Stage::ToBridge { .. }) && event matches Event::Swap { result: Ok(_) }
}

proof fn lemma_opened_tally(route: Route, p: Progress)
    ensures
        tally(route, opened(route, p)) == tally(route, p),
    decreases p.waiting.len(),
{
    if p.stage is None && p.waiting.len() > 0 {
        let leg = p.waiting[0];
        let rest = p.waiting.drop_first();
        match opening(route, leg) {
            Opening::Nothing => {
                lemma_opened_tally(route, Progress { waiting: rest, ..p });
            },
            Opening::Begin { stage } => {},
            Opening::NoRoute => {
                let s = Stuck { token: leg.token, amount: leg.amount, reason: no_route_reason() };
                lemma_opened_tally(
                    route,
                    Progress { waiting: rest, stuck: p.stuck.push(s), ..p },
                );
            },
        }
    }
}

/// The progress after a number of events.
pub open spec fn after_all(route: Route, p: Progress, events: Seq<Event>) -> Progress
    decreases events.len(),
{
    if events.len() == 0 {
        p
    } else {
        after(route, after_all(route, p, events.drop_last()), events.last())
    }
}

/// How many of the events were the first of two hops, done.
pub open spec fn first_hops(route: Route, p: Progress, events: Seq<Event>) -> nat
    decreases events.len(),
{
    if events.len() == 0 {
        0
    } else {
        first_hops(route, p, events.drop_last()) + (if first_hop(
            after_all(route, p, events.drop_last()),
            events.last(),
        ) {
            1nat
        } else {
            0
        })
    }
}

proof fn lemma_tally_is_kept(route: Route, p: Progress, events: Seq<Event>)
    ensures
        tally(route, after_all(route, p, events)) == tally(route, p) + first_hops(
            route,
            p,
            events,
        ),
    decreases events.len(),
{
    if events.len() > 0 {
        let q = after_all(route, p, events.drop_last());
        lemma_tally_is_kept(route, p, events.drop_last());
        lemma_opened_tally(route, settled(route, q, events.last()));
    }
}

/// Nothing is lost: once a conversion has finished, whatever the events were, there is
/// one swap or one failure for each leg that had to be converted, beside the first hops
/// of legs that took two.
pub proof fn law_nothing_is_lost(
    route: Route,
    token0: Address,
    amount0: U256,
    token1: Address,
    amount1: U256,
    events: Seq<Event>,
)
    requires
        after_all(
            route,
            opened(route, both_legs(token0, amount0, token1, amount1)),
            events,
        ).stage is None,
    ensures
        ({
            let start = opened(route, both_legs(token0, amount0, token1, amount1));
            let end = after_all(route, start, events);
            end.swaps.len() + end.stuck.len() == to_convert(
                route,
                both_legs(token0, amount0, token1, amount1).waiting,
            ) + first_hops(route, start, events)
        }),
{
    let legs = both_legs(token0, amount0, token1, amount1);
    let start = opened(route, legs);
    lemma_opened_tally(route, legs);
    lemma_tally_is_kept(route, start, events);
    lemma_nothing_waits(route, start, events);
    lemma_opened_waits(route, legs);
}

proof fn lemma_opened_waits(route: Route, p: Progress)
    ensures
        opened(route, p).stage is None ==> opened(route, p).waiting.len() == 0,
    decreases p.waiting.len(),
{
    if p.stage is None && p.waiting.len() > 0 {
        let leg = p.waiting[0];
        let rest = p.waiting.drop_first();
        match opening(route, leg) {
            Opening::Nothing => {
                lemma_opened_waits(route, Progress { waiting: rest, ..p });
            },
            Opening::Begin { stage } => {},
            Opening::NoRoute => {
                let s = Stuck { token: leg.token, amount: leg.amount, reason: no_route_reason() };
                lemma_opened_waits(
                    route,
                    Progress { waiting: rest, stuck: p.stuck.push(s), ..p },
                );
            },
        }
    }
}

proof fn lemma_nothing_waits(route: Route, p: Progress, events: Seq<Event>)
    ensures
        events.len() > 0 && after_all(route, p, events).stage is None ==> after_all(
            route,
            p,
            events,
        ).waiting.len() == 0,
{
    if events.len() > 0 {
        lemma_opened_waits(
            route,
            settled(route, after_all(route, p, events.drop_last()), events.last()),
        );
    }
}

/// A leg that is empty or already in the target asset takes no action and is not
/// reported.
pub proof fn law_target_leg_is_left_alone(route: Route, leg: Leg)
    requires
        leg.amount.value() == 0 || leg.token == route.target,
    ensures
        opened(
            route,
            Progress {
                waiting: seq![leg],
                stage: None,
                swaps: Seq::empty(),
                stuck: Seq::empty(),
            },
        ) == (Progress {
            waiting: Seq::empty(),
            stage: None,
            swaps: Seq::empty(),
            stuck: Seq::empty(),
        }),
{
    reveal_with_fuel(opened, 2);
    assert(seq![leg].drop_first() =~= Seq::<Leg>::empty());
}

/// Whether a token is one of the two reference assets of a route.
pub open spec fn is_reference(route: Route, token: Address) -> bool {
    token == route.target || token == route.bridge
}

/// The first side of a pool: a non-empty leg in a token that is no reference asset begins
/// with a swap of its whole amount, in the pool that was left, into the pool's other
/// token, whenever that is a reference asset.
pub proof fn law_first_side_is_routed(
    route: Route,
    token0: Address,
    amount0: U256,
    token1: Address,
    amount1: U256,
)
    requires
        amount0.value() > 0,
        !is_reference(route, token0),
        is_reference(route, token1),
    ensures
        ({
            let start = opened(route, both_legs(token0, amount0, token1, amount1));
            &&& action_for(route, start.stage) == (Action::Swap {
                token_in: token0,
                token_out: token1,
                fee: route.position_fee,
                amount_in: amount0,
            })
            &&& start.swaps.len() == 0
            &&& start.stuck.len() == 0
        }),
{
}

proof fn lemma_second_waits(
    route: Route,
    token0: Address,
    amount0: U256,
    token1: Address,
    amount1: U256,
    events: Seq<Event>,
)
    requires
        opening(route, Leg { token: token0, amount: amount0, other: token1 }) is Begin,
    ensures
        ({
            let start = opened(route, both_legs(token0, amount0, token1, amount1));
            let q = after_all(route, start, events);
            &&& q.waiting.len() <= 1
            &&& q.waiting.len() == 1 ==> q.stage is Some && q.waiting[0] == (Leg {
                token: token1,
                amount: amount1,
                other: token0,
            })
        }),
    decreases events.len(),
{
    let legs = both_legs(token0, amount0, token1, amount1);
    let start = opened(route, legs);
    assert(legs.waiting.drop_first() =~= seq![
        Leg { token: token1, amount: amount1, other: token0 },
    ]);
    if events.len() > 0 {
        lemma_second_waits(route, token0, amount0, token1, amount1, events.drop_last());
        let q = after_all(route, start, events.drop_last());
        let s = settled(route, q, events.last());
        assert(s.waiting == q.waiting);
        if s.stage is None && s.waiting.len() == 1 {
            let rest = s.waiting.drop_first();
            assert(rest.len() == 0);
            reveal_with_fuel(opened, 3);
        }
    }
}

/// The second side of a pool is treated as the first is: once the first leg has ended, by
/// a swap or a failure, a non-empty second leg in a token that is no reference asset is
/// swapped, its whole amount, in the pool that was left, into the pool's other token,
/// whenever that is a reference asset.
pub proof fn law_second_side_is_routed(
    route: Route,
    token0: Address,
    amount0: U256,
    token1: Address,
    amount1: U256,
    events: Seq<Event>,
    last: Event,
)
    requires
        amount0.value() > 0,
        token0 != route.target,
        amount1.value() > 0,
        is_reference(route, token0),
        !is_reference(route, token1),
        ({
            let q = after_all(
                route,
                opened(route, both_legs(token0, amount0, token1, amount1)),
                events,
            );
            q.waiting.len() == 1 && settled(route, q, last).stage is None
        }),
    ensures
        ({
            let q = after_all(
                route,
                opened(route, both_legs(token0, amount0, token1, amount1)),
                events,
            );
            &&& action_for(route, after(route, q, last).stage) == (Action::Swap {
                token_in: token1,
                token_out: token0,
                fee: route.position_fee,
                amount_in: amount1,
            })
            &&& after(route, q, last).stuck == settled(route, q, last).stuck
        }),
{
    lemma_second_waits(route, token0, amount0, token1, amount1, events);
}

/// Where there is nothing to do for the first side, the second is begun at once, in the
/// same way.
pub proof fn law_second_side_alone_is_routed(
    route: Route,
    token0: Address,
    amount0: U256,
    token1: Address,
    amount1: U256,
)
    requires
        amount0.value() == 0 || token0 == route.target,
        amount1.value() > 0,
        is_reference(route, token0),
        !is_reference(route, token1),
    ensures
        action_for(route, opened(route, both_legs(token0, amount0, token1, amount1)).stage) == (
        Action::Swap {
            token_in: token1,
            token_out: token0,
            fee: route.position_fee,
            amount_in: amount1,
        }),
{
    reveal_with_fuel(opened, 3);
    let legs = both_legs(token0, amount0, token1, amount1);
    assert(legs.waiting.drop_first() =~= seq![
        Leg { token: token1, amount: amount1, other: token0 },
    ]);
}

/// A leg is reported as having no route only where neither token of the pool is a
/// reference asset, and then at once, with its own token and its whole amount.
pub proof fn law_no_route_without_reference(
    route: Route,
    token0: Address,
    amount0: U256,
    token1: Address,
    amount1: U256,
    events: Seq<Event>,
    last: Event,
)
    ensures
        ({
            let start = opened(route, both_legs(token0, amount0, token1, amount1));
            let q = after_all(route, start, events);
            &&& start.stuck.len() > 0 ==> !is_reference(route, token0) && !is_reference(
                route,
                token1,
            )
            &&& after(route, q, last).stuck.len() > settled(route, q, last).stuck.len()
                ==> !is_reference(route, token0) && !is_reference(route, token1)
            &&& !is_reference(route, token0) && !is_reference(route, token1) && amount0.value() > 0
                && amount1.value() > 0 ==> {
                &&& start.stage is None
                &&& start.stuck.len() == 2
                &&& start.stuck[0].token == token0 && start.stuck[0].amount == amount0
                &&& start.stuck[1].token == token1 && start.stuck[1].amount == amount1
            }
        }),
{
    reveal_with_fuel(opened, 3);
    let legs = both_legs(token0, amount0, token1, amount1);
    let leg1 = Leg { token: token0, amount: amount0, other: token1 };
    let leg2 = Leg { token: token1, amount: amount1, other: token0 };
    assert(legs.waiting.drop_first() =~= seq![leg2]);
    assert(legs.waiting.drop_first().drop_first() =~= Seq::<Leg>::empty());
    let start = opened(route, legs);
    let q = after_all(route, start, events);
    if opening(route, leg1) is Begin {
        lemma_second_waits(route, token0, amount0, token1, amount1, events);
        let s = settled(route, q, last);
        if s.stage is None && s.waiting.len() == 1 {
            assert(s.waiting[0] == leg2);
            assert(s.waiting.drop_first() =~= Seq::<Leg>::empty());
        }
    } else {
        assert(start.waiting.len() == 0);
        lemma_none_wait(route, start, events);
        assert(settled(route, q, last).waiting.len() == 0);
    }
}

proof fn lemma_none_wait(route: Route, p: Progress, events: Seq<Event>)
    requires
        p.waiting.len() == 0,
    ensures
        after_all(route, p, events).waiting.len() == 0,
    decreases events.len(),
{
    if events.len() > 0 {
        lemma_none_wait(route, p, events.drop_last());
    }
}

/// A leg in the bridge asset looks for a pool of the bridge and the target and is then
/// swapped into the target there, its whole amount, at the fee that was found.
pub proof fn law_bridge_leg_is_swapped_directly(
    route: Route,
    amount0: U256,
    token1: Address,
    amount1: U256,
    fee: u32,
)
    requires
        amount0.value() > 0,
        route.bridge != route.target,
    ensures
        ({
            let start = opened(route, both_legs(route.bridge, amount0, token1, amount1));
            &&& action_for(route, start.stage) == (Action::FindPool {
                token_a: route.bridge,
                token_b: route.target,
            })
            &&& action_for(
                route,
                after(route, start, Event::Pool { found: Ok(Some(fee)) }).stage,
            ) == (Action::Swap {
                token_in: route.bridge,
                token_out: route.target,
                fee,
                amount_in: amount0,
            })
        }),
{
}

/// The second of two hops takes on what the first brought: after a swap into the bridge, a
/// pool of the bridge and the target is looked for, and what came out of the first swap is
/// swapped there into the target, at the fee that was found. Both swaps are on record.
pub proof fn law_second_hop_takes_what_came_out(
    route: Route,
    p: Progress,
    token: Address,
    amount: U256,
    hop: SwapResult,
    fee: u32,
    end: SwapResult,
)
    requires
        route.bridge != route.target,
        p.stage is Some,
        action_for(route, p.stage) == (Action::Swap {
            token_in: token,
            token_out: route.bridge,
            fee: route.position_fee,
            amount_in: amount,
        }),
    ensures
        ({
            let first = after(route, p, Event::Swap { result: Ok(hop) });
            let second = after(route, first, Event::Pool { found: Ok(Some(fee)) });
            let third = settled(route, second, Event::Swap { result: Ok(end) });
            &&& action_for(route, first.stage) == (Action::FindPool {
                token_a: route.bridge,
                token_b: route.target,
            })
            &&& action_for(route, second.stage) == (Action::Swap {
                token_in: route.bridge,
                token_out: route.target,
                fee,
                amount_in: hop.amount_out,
            })
            &&& third.stage is None
            &&& third.swaps == p.swaps.push(hop).push(end)
            &&& third.stuck == p.stuck
        }),
{
}

/// Proceeds for USDG are left alone in USDG and bridged by WETH; proceeds for WETH the
/// other way round.
pub proof fn law_routes_mirror(references: References, position_fee: u32, amount: U256, token: Address)
    requires
        amount.value() > 0,
        references.usdg != references.weth,
    ensures
        opening(
            to_usdg(references, position_fee),
            Leg { token: references.usdg, amount, other: token },
        ) is Nothing,
        opening(
            to_weth(references, position_fee),
            Leg { token: references.weth, amount, other: token },
        ) is Nothing,
        action_for(
            to_usdg(references, position_fee),
            opened(
                to_usdg(references, position_fee),
                both_legs(references.weth, amount, token, U256 { hi: 0, lo: 0 }),
            ).stage,
        ) == (Action::FindPool { token_a: references.weth, token_b: references.usdg }),
        action_for(
            to_weth(references, position_fee),
            opened(
                to_weth(references, position_fee),
                both_legs(references.usdg, amount, token, U256 { hi: 0, lo: 0 }),
            ).stage,
        ) == (Action::FindPool { token_a: references.usdg, token_b: references.weth }),
        to_usdg(references, position_fee).position_fee == position_fee,
        to_weth(references, position_fee).position_fee == position_fee,
{
}

/// The two sides of a pool are treated alike: once the first leg has ended, the second
/// begins as it would have begun if it had been the first.
pub proof fn law_sides_are_treated_alike(
    route: Route,
    token0: Address,
    amount0: U256,
    token1: Address,
    amount1: U256,
    events: Seq<Event>,
    last: Event,
)
    requires
        amount0.value() > 0,
        token0 != route.target,
        amount1.value() > 0,
        token1 != route.target,
        is_reference(route, token0) || is_reference(route, token1),
        ({
            let q = after_all(
                route,
                opened(route, both_legs(token0, amount0, token1, amount1)),
                events,
            );
            q.waiting.len() == 1 && settled(route, q, last).stage is None
        }),
    ensures
        ({
            let q = after_all(
                route,
                opened(route, both_legs(token0, amount0, token1, amount1)),
                events,
            );
            action_for(route, after(route, q, last).stage) == action_for(
                route,
                opened(route, both_legs(token1, amount1, token0, amount0)).stage,
            )
        }),
{
    lemma_second_waits(route, token0, amount0, token1, amount1, events);
}

/// A conversion into USDG ends in USDG and goes through WETH, one into WETH the other way
/// round; both begin in the pool that was left.
pub proof fn law_routes_by_name(references: References, position_fee: u32)
    ensures
        ({
            let usdg = to_usdg(references, position_fee);
            let weth = to_weth(references, position_fee);
            &&& usdg.target == references.usdg && usdg.bridge == references.weth
            &&& weth.target == references.weth && weth.bridge == references.usdg
            &&& usdg.position_fee == position_fee && weth.position_fee == position_fee
            &&& usdg.target_is_usdg && !weth.target_is_usdg
        }),
{
}

} // verus!
