//! The simulated buy-then-sell round trip.
use vstd::prelude::*;

use crate::address::{Address, U256};
use crate::double::{difference_of, less, of_nat, product_of, quotient_of, Double};
use crate::numbers::HUNDRED;
use crate::order::larger_of;

verus! {

/// The outcome of a round trip.
#[derive(Debug, Clone, Copy, PartialEq, Eq, Structural)]
pub struct HoneypotCheck {
    /// False if the token could not be bought or not be sold back.
    pub sellable: bool,
    /// What the round trip lost; None if the token is not sellable.
    pub round_trip_loss_percent: Option<Double>,
}

/// A quote to ask for.
#[derive(Debug, Clone, Copy, PartialEq, Eq, Structural)]
pub struct QuoteRequest {
    pub token_in: Address,
    pub token_out: Address,
    pub fee: u32,
    pub amount_in: U256,
}

/// What the quoter said.
#[derive(Debug, Clone, Copy, PartialEq, Eq, Structural)]
pub enum Quote {
    NotAsked,
    Failed,
    Out { amount: U256 },
}

/// What a round trip comes to next.
#[derive(Debug, Clone, Copy, PartialEq, Eq, Structural)]
pub enum HoneypotStep {
    /// Ask for a quote: first of the buy, then of the sale.
    Ask { quote: QuoteRequest },
    Verdict { check: HoneypotCheck },
}

/// What a round trip lost, in percent; nothing where it gained.
pub open spec fn round_trip_loss(amount_in: u128, amount_back: u128) -> Double {
    let given = of_nat(amount_in as nat);
    let back = of_nat(amount_back as nat);
    if less(Double { bits: 0 }, given) {
        larger_of(
            product_of(quotient_of(difference_of(given, back), given), Double { bits: HUNDRED }),
            Double { bits: 0 },
        )
    } else {
        Double { bits: 0 }
    }
}

pub open spec fn not_sellable() -> HoneypotCheck {
    HoneypotCheck { sellable: false, round_trip_loss_percent: None }
}

pub open spec fn buy_quote(token: Address, reference: Address, fee: u32, amount: U256) -> QuoteRequest {
    QuoteRequest { token_in: reference, token_out: token, fee, amount_in: amount }
}

pub open spec fn sell_quote(
    token: Address,
    reference: Address,
    fee: u32,
    amount: U256,
) -> QuoteRequest {
    QuoteRequest { token_in: token, token_out: reference, fee, amount_in: amount }
}

/// How a round trip stands after the quotes so far.
pub open spec fn round_trip(
    token: Address,
    reference: Address,
    fee: u32,
    test_amount_in: U256,
    buy: Quote,
    sell: Quote,
) -> HoneypotStep {
    match buy {
        Quote::NotAsked => HoneypotStep::Ask {
            quote: buy_quote(token, reference, fee, test_amount_in),
        },
        Quote::Failed => HoneypotStep::Verdict { check: not_sellable() },
        Quote::Out { amount: bought } => if bought.value() == 0 {
            HoneypotStep::Verdict { check: not_sellable() }
        } else {
            match sell {
                Quote::NotAsked => HoneypotStep::Ask {
                    quote: sell_quote(token, reference, fee, bought),
                },
                Quote::Failed => HoneypotStep::Verdict { check: not_sellable() },
                Quote::Out { amount: back } => HoneypotStep::Verdict {
                    check: HoneypotCheck {
                        sellable: true,
                        round_trip_loss_percent: Some(round_trip_loss(test_amount_in.lo, back.lo)),
                    },
                },
            }
        },
    }
}

/// What a round trip lost, in percent; nothing where it gained.
pub fn loss_percent(amount_in: u128, amount_back: u128) -> (r: Double)
    ensures
        r == round_trip_loss(amount_in, amount_back),
{
    let given = Double::from_u128(amount_in);
    let back = Double::from_u128(amount_back);
    if (Double { bits: 0 }).less_than(given) {
        given.minus(back).over(given).times(Double { bits: HUNDRED }).larger(Double { bits: 0 })
    } else {
        Double { bits: 0 }
    }
}

/// The next step of buying `token` for `test_amount_in` of `reference` and selling
/// it back, in simulation. Where the buy or the sale cannot be simulated, the token
/// is taken as not sellable.
pub fn check_honeypot(
    token: Address,
    reference: Address,
    fee: u32,
    test_amount_in: U256,
    buy: Quote,
    sell: Quote,
) -> (r: HoneypotStep)
    requires
        test_amount_in.hi == 0,
        sell matches Quote::Out { amount } ==> amount.hi == 0,
    ensures
        r == round_trip(token, reference, fee, test_amount_in, buy, sell),
{
    match buy {
        Quote::NotAsked => HoneypotStep::Ask {
            quote: QuoteRequest {
                token_in: reference,
                token_out: token,
                fee,
                amount_in: test_amount_in,
            },
        },
        Quote::Failed => HoneypotStep::Verdict {
            check: HoneypotCheck { sellable: false, round_trip_loss_percent: None },
        },
        Quote::Out { amount: bought } => if bought.is_zero() {
            HoneypotStep::Verdict {
                check: HoneypotCheck { sellable: false, round_trip_loss_percent: None },
            }
        } else {
            match sell {
                Quote::NotAsked => HoneypotStep::Ask {
                    quote: QuoteRequest {
                        token_in: token,
                        token_out: reference,
                        fee,
                        amount_in: bought,
                    },
                },
                Quote::Failed => HoneypotStep::Verdict {
                    check: HoneypotCheck { sellable: false, round_trip_loss_percent: None },
                },
                Quote::Out { amount: back } => HoneypotStep::Verdict {
                    check: HoneypotCheck {
                        sellable: true,
                        round_trip_loss_percent: Some(loss_percent(test_amount_in.lo, back.lo)),
                    },
                },
            }
        },
    }
}

/// A token counts as sellable only if something was bought and its sale was quoted;
/// then, and only then, there is a loss figure.
pub proof fn law_sellable_needs_both_quotes(
    token: Address,
    reference: Address,
    fee: u32,
    test_amount_in: U256,
    buy: Quote,
    sell: Quote,
)
    ensures
        round_trip(token, reference, fee, test_amount_in, buy, sell) matches HoneypotStep::Verdict {
            check,
        } ==> (check.sellable <==> (buy matches Quote::Out { amount } && amount.value() > 0
            && sell is Out)) && (check.sellable <==> check.round_trip_loss_percent is Some),
{
}

/// A round trip is closed: what was bought, all of it, is what is sold back, in the same
/// pool and into the same reference asset that it was bought with.
pub proof fn law_round_trip_is_closed(
    token: Address,
    reference: Address,
    fee: u32,
    test_amount_in: U256,
    bought: U256,
)
    requires
        bought.value() > 0,
    ensures
        ({
            let first = round_trip(
                token,
                reference,
                fee,
                test_amount_in,
                Quote::NotAsked,
                Quote::NotAsked,
            );
            let second = round_trip(
                token,
                reference,
                fee,
                test_amount_in,
                Quote::Out { amount: bought },
                Quote::NotAsked,
            );
            &&& first matches HoneypotStep::Ask { quote: buy } && second matches HoneypotStep::Ask {
                quote: sale,
            } && buy.token_in == reference && buy.token_out == token && buy.amount_in
                == test_amount_in && sale.token_in == buy.token_out && sale.token_out
                == buy.token_in && sale.amount_in == bought && sale.fee == buy.fee && buy.fee == fee
        }),
{
}

/// A quote that fails, or a buy that brings nothing, ends a round trip as not sellable.
pub proof fn law_failed_quote_is_not_sellable(
    token: Address,
    reference: Address,
    fee: u32,
    test_amount_in: U256,
    buy: Quote,
    sell: Quote,
)
    requires
        buy is Failed || (buy matches Quote::Out { amount } && amount.value() == 0) || (buy is Out
            && sell is Failed),
    ensures
        round_trip(token, reference, fee, test_amount_in, buy, sell) matches HoneypotStep::Verdict {
            check,
        } && !check.sellable && check.round_trip_loss_percent is None,
{
}

} // verus!
