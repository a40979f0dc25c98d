//! Alerts and the list of positions.
use vstd::prelude::*;
use vstd::string::*;

use crate::address::address_text;
use crate::decimal::{decimal, push_decimal};
use crate::double::{of_nat, quotient_of, Double};
use crate::fixed::{fixed, fixed_signed, push_fixed, push_fixed_signed};
use crate::models::{PoolMetrics, Position, PositionPnl, ScreenResult, VolumeSpike};
use crate::numbers::TEN_THOUSAND;
use crate::telegram::message::{
    add_bullets, add_count, add_flag, add_line, add_number, bulleted, count_line, flag_line, maybe,
    number_line, number_text, numbered, under_each_other, OutMessage,
};
use crate::text::{join, texts};

verus! {

pub open spec fn pair_text(symbol0: Seq<char>, symbol1: Seq<char>) -> Seq<char> {
    "*Pair:* "@ + symbol0 + "/"@ + symbol1
}

/// A fee tier in percent.
pub open spec fn fee_percent(fee: u32) -> Double {
    quotient_of(of_nat(fee as nat), Double { bits: TEN_THOUSAND })
}

/// A fee tier in percent.
pub fn percent_of_fee(fee: u32) -> (r: Double)
    ensures
        r == fee_percent(fee),
{
    Double::from_u64(fee as u64).over(Double { bits: TEN_THOUSAND })
}

pub open spec fn tax_line(m: PoolMetrics) -> Option<Seq<char>> {
    match (m.buy_tax_percent, m.sell_tax_percent) {
        (Some(buy), Some(sell)) => Some(
            "*Buy/sell tax:* "@ + fixed(buy, 1) + "% / "@ + fixed(sell, 1) + "%"@,
        ),
        _ => None,
    }
}

pub open spec fn honeypot_line(m: PoolMetrics) -> Option<Seq<char>> {
    match (m.honeypot_sellable, m.honeypot_round_trip_loss_percent) {
        (Some(true), Some(loss)) => Some(
            number_text(
                "*Honeypot check:* passed (simulated round-trip loss "@,
                loss,
                1,
                "%)"@,
            ),
        ),
        _ => None,
    }
}

/// The lines on a pool's size and returns.
pub open spec fn size_lines(lines: Seq<Seq<char>>, m: PoolMetrics) -> Seq<Seq<char>> {
    let l1 = maybe(lines, number_line("*TVL:* $"@, m.tvl_usd, 0, ""@));
    let l2 = maybe(l1, number_line("*Market cap (FDV):* $"@, m.market_cap_usd, 0, ""@));
    let l3 = maybe(l2, number_line("*24h volume:* $"@, m.volume_24h_usd, 0, ""@));
    let l4 = maybe(l3, number_line("*Est. fee APR:* "@, m.apr_percent, 1, "%"@));
    let l5 = maybe(l4, count_line("*Holders:* "@, m.holder_count));
    maybe(l5, count_line("*Unique traders (24h, approx.):* "@, m.unique_traders_24h))
}

/// The lines on who holds a pool's token and what its contract allows.
pub open spec fn safety_lines(lines: Seq<Seq<char>>, m: PoolMetrics) -> Seq<Seq<char>> {
    let l1 = maybe(
        lines,
        number_line("*Top-10 holders:* "@, m.top10_holder_pct, 1, "% of supply"@),
    );
    let l2 = maybe(l1, number_line("*Dev/creator holdings:* "@, m.dev_holding_pct, 1, "%"@));
    let l3 = maybe(l2, tax_line(m));
    let l4 = maybe(
        l3,
        flag_line("*Ownership renounced:* "@, m.ownership_renounced, "yes"@, "⚠️ no"@),
    );
    let l5 = maybe(l4, flag_line("*Mintable:* "@, m.is_mintable, "⚠️ yes"@, "no"@));
    let l6 = maybe(l5, number_line("*LP locked (GoPlus):* "@, m.lp_locked_pct, 1, "%"@));
    maybe(l6, honeypot_line(m))
}

pub open spec fn alert_head(r: ScreenResult) -> Seq<Seq<char>> {
    Seq::<Seq<char>>::empty().push("🟢 *Pool passed screening*"@).push(
        pair_text(r.candidate.metrics.token0_symbol@, r.candidate.metrics.token1_symbol@),
    ).push("*Address:* `"@ + address_text(r.candidate.info.address) + "`"@).push(
        number_text("*Fee tier:* "@, fee_percent(r.candidate.info.fee), 2, "%"@),
    )
}

/// The lines of the alert for a pool that passed.
pub open spec fn alert_lines(r: ScreenResult) -> Seq<Seq<char>> {
    let m = r.candidate.metrics;
    let facts = safety_lines(size_lines(alert_head(r), m), m);
    let aged = facts.push(number_text("*Age:* "@, m.age_hours, 1, "h"@));
    let reasons = bulleted(aged.push(""@).push("*Why it passed:*"@), texts(r.reasons@));
    reasons.push(""@).push(
        "⚠️ This is an automated screen, not financial advice. Verify the pool yourself before adding liquidity — tapping the button below will sign and send a real transaction."@,
    )
}

fn add_size_lines(lines: &mut Vec<String>, m: &PoolMetrics)
    ensures
        texts(final(lines)@) == size_lines(texts(old(lines)@), *m),
{
    add_number(lines, "*TVL:* $", m.tvl_usd, 0, "");
    add_number(lines, "*Market cap (FDV):* $", m.market_cap_usd, 0, "");
    add_number(lines, "*24h volume:* $", m.volume_24h_usd, 0, "");
    add_number(lines, "*Est. fee APR:* ", m.apr_percent, 1, "%");
    add_count(lines, "*Holders:* ", m.holder_count);
    add_count(lines, "*Unique traders (24h, approx.):* ", m.unique_traders_24h);
}

fn add_safety_lines(lines: &mut Vec<String>, m: &PoolMetrics)
    ensures
        texts(final(lines)@) == safety_lines(texts(old(lines)@), *m),
{
    add_number(lines, "*Top-10 holders:* ", m.top10_holder_pct, 1, "% of supply");
    add_number(lines, "*Dev/creator holdings:* ", m.dev_holding_pct, 1, "%");
    match (m.buy_tax_percent, m.sell_tax_percent) {
        (Some(buy), Some(sell)) => {
            let mut text = String::from_str("*Buy/sell tax:* ");
            push_fixed(&mut text, buy, 1);
            text.append("% / ");
            push_fixed(&mut text, sell, 1);
            text.append("%");
            add_line(lines, text);
        },
        _ => {},
    }
    add_flag(lines, "*Ownership renounced:* ", m.ownership_renounced, "yes", "⚠️ no");
    add_flag(lines, "*Mintable:* ", m.is_mintable, "⚠️ yes", "no");
    add_number(lines, "*LP locked (GoPlus):* ", m.lp_locked_pct, 1, "%");
    match (m.honeypot_sellable, m.honeypot_round_trip_loss_percent) {
        (Some(true), Some(loss)) => {
            add_line(
                lines,
                numbered("*Honeypot check:* passed (simulated round-trip loss ", loss, 1, "%)"),
            );
        },
        _ => {},
    }
}

fn pair_line(symbol0: &str, symbol1: &str) -> (r: String)
    ensures
        r@ == pair_text(symbol0@, symbol1@),
{
    let mut text = String::from_str("*Pair:* ");
    text.append(symbol0);
    text.append("/");
    text.append(symbol1);
    text
}

/// The text of the alert for a pool that passed.
pub fn format_alert(result: &ScreenResult) -> (r: String)
    ensures
        r@ == under_each_other(alert_lines(*result)),
{
    let m = &result.candidate.metrics;
    let mut lines: Vec<String> = Vec::new();
    assert(texts(lines@) =~= Seq::<Seq<char>>::empty());
    add_line(&mut lines, String::from_str("🟢 *Pool passed screening*"));
    add_line(&mut lines, pair_line(m.token0_symbol.as_str(), m.token1_symbol.as_str()));
    let mut address = String::from_str("*Address:* `");
    address.append(result.candidate.info.address.text().as_str());
    address.append("`");
    add_line(&mut lines, address);
    add_line(
        &mut lines,
        numbered("*Fee tier:* ", percent_of_fee(result.candidate.info.fee), 2, "%"),
    );
    add_size_lines(&mut lines, m);
    add_safety_lines(&mut lines, m);
    add_line(&mut lines, numbered("*Age:* ", m.age_hours, 1, "h"));
    add_line(&mut lines, String::from_str(""));
    add_line(&mut lines, String::from_str("*Why it passed:*"));
    add_bullets(&mut lines, &result.reasons);
    add_line(&mut lines, String::from_str(""));
    add_line(
        &mut lines,
        String::from_str(
            "⚠️ This is an automated screen, not financial advice. Verify the pool yourself before adding liquidity — tapping the button below will sign and send a real transaction.",
        ),
    );
    join(&lines, "\n")
}

/// What the "Add LP" button of a pool sends back.
pub open spec fn add_lp_data(pool: Seq<char>) -> Seq<char> {
    "addlp:"@ + pool
}

/// What the "Add LP" button of a pool sends back.
pub fn add_lp_button_data(pool: &str) -> (r: String)
    ensures
        r@ == add_lp_data(pool@),
{
    let mut data = String::from_str("addlp:");
    data.append(pool);
    data
}

/// The alert for a pool that passed, with a button that adds liquidity to it.
pub fn send_alert(result: &ScreenResult) -> (r: OutMessage)
    ensures
        r.offers(
            under_each_other(alert_lines(*result)),
            "✅ Add LP now"@,
            add_lp_data(address_text(result.candidate.info.address)),
        ),
{
    let pool = result.candidate.info.address.text();
    OutMessage::with_button(
        format_alert(result),
        "✅ Add LP now",
        add_lp_button_data(pool.as_str()),
    )
}

/// What the "Close position" button of a position sends back.
pub open spec fn close_data(token_id: u64) -> Seq<char> {
    "closepos:"@ + decimal(token_id as nat)
}

/// What the "Close position" button of a position sends back.
pub fn close_button(token_id: u64) -> (r: String)
    ensures
        r@ == close_data(token_id),
{
    let mut data = String::from_str("closepos:");
    push_decimal(&mut data, token_id as u128);
    data
}

pub open spec fn tp_sl_text(p: Position, pnl_percent: Double, hit: Seq<char>) -> Seq<char> {
    "🎯 *"@ + hit + " hit*\n*Pair:* "@ + p.token0_symbol@ + "/"@ + p.token1_symbol@
        + "\n*Position:* `#"@ + decimal(p.token_id as nat) + "`\n*PnL:* "@ + fixed_signed(
        pnl_percent,
        1,
    ) + "%\n\nTap below to close and collect principal + fees. This sends a real transaction."@
}

/// The alert for a position whose profit or loss has reached a limit, with a button
/// that closes it.
pub fn send_tp_sl_alert(position: &Position, pnl_percent: Double, hit: &str) -> (r: OutMessage)
    ensures
        r.offers(
            tp_sl_text(*position, pnl_percent, hit@),
            "🔴 Close position"@,
            close_data(position.token_id),
        ),
{
    let mut text = String::from_str("🎯 *");
    text.append(hit);
    text.append(" hit*\n*Pair:* ");
    text.append(position.token0_symbol.as_str());
    text.append("/");
    text.append(position.token1_symbol.as_str());
    text.append("\n*Position:* `#");
    push_decimal(&mut text, position.token_id as u128);
    text.append("`\n*PnL:* ");
    push_fixed_signed(&mut text, pnl_percent, 1);
    text.append(
        "%\n\nTap below to close and collect principal + fees. This sends a real transaction.",
    );
    OutMessage::with_button(text, "🔴 Close position", close_button(position.token_id))
}

pub open spec fn spike_text(p: Position, s: VolumeSpike) -> Seq<char> {
    "📈 *Volume spike detected*\n*Pair:* "@ + p.token0_symbol@ + "/"@ + p.token1_symbol@
        + "\n*Position:* `#"@ + decimal(p.token_id as nat) + "`\nRecent-window volume: $"@ + fixed(
        s.recent_volume_usd,
        0,
    ) + "\nPrevious window: $"@ + fixed(s.previous_volume_usd, 0) + "\n*Ratio:* "@ + fixed(
        s.ratio,
        1,
    )
        + "x\n\nWorth a look — could be a good exit or a warning sign depending on direction. Tap below if you'd like to close this position."@
}

/// The alert for a volume spike in a position's pool, with a button that closes the
/// position.
pub fn send_spike_alert(position: &Position, spike: &VolumeSpike) -> (r: OutMessage)
    ensures
        r.offers(
            spike_text(*position, *spike),
            "🔴 Close position"@,
            close_data(position.token_id),
        ),
{
    let mut text = String::from_str("📈 *Volume spike detected*\n*Pair:* ");
    text.append(position.token0_symbol.as_str());
    text.append("/");
    text.append(position.token1_symbol.as_str());
    text.append("\n*Position:* `#");
    push_decimal(&mut text, position.token_id as u128);
    text.append("`\nRecent-window volume: $");
    push_fixed(&mut text, spike.recent_volume_usd, 0);
    text.append("\nPrevious window: $");
    push_fixed(&mut text, spike.previous_volume_usd, 0);
    text.append("\n*Ratio:* ");
    push_fixed(&mut text, spike.ratio, 1);
    text.append(
        "x\n\nWorth a look — could be a good exit or a warning sign depending on direction. Tap below if you'd like to close this position.",
    );
    OutMessage::with_button(text, "🔴 Close position", close_button(position.token_id))
}

pub open spec fn pnl_text(pnl_percent: Option<Double>, pnl_usd: Option<Double>) -> Seq<char> {
    match (pnl_percent, pnl_usd) {
        (Some(pct), Some(usd)) => ""@ + fixed_signed(pct, 1) + "% ("@ + fixed_signed(usd, 2)
            + " USD)"@,
        _ => "unavailable"@,
    }
}

pub open spec fn range_text(in_range: Option<bool>) -> Seq<char> {
    match in_range {
        Some(true) => "in range"@,
        Some(false) => "OUT OF RANGE"@,
        None => "unknown"@,
    }
}

pub open spec fn position_text(
    p: Position,
    pnl_percent: Option<Double>,
    pnl_usd: Option<Double>,
    in_range: Option<bool>,
) -> Seq<char> {
    "*#"@ + decimal(p.token_id as nat) + "* "@ + p.token0_symbol@ + "/"@ + p.token1_symbol@
        + " — entry $"@ + fixed(p.entry_cost_usd, 2) + "\nPnL: "@ + pnl_text(pnl_percent, pnl_usd)
        + " · "@ + range_text(in_range)
}

/// A position in the list of positions.
pub fn format_position_line(
    position: &Position,
    pnl_percent: Option<Double>,
    pnl_usd: Option<Double>,
    in_range: Option<bool>,
) -> (r: String)
    ensures
        r@ == position_text(*position, pnl_percent, pnl_usd, in_range),
{
    let mut pnl = String::from_str("");
    match (pnl_percent, pnl_usd) {
        (Some(pct), Some(usd)) => {
            push_fixed_signed(&mut pnl, pct, 1);
            pnl.append("% (");
            push_fixed_signed(&mut pnl, usd, 2);
            pnl.append(" USD)");
        },
        _ => {
            pnl = String::from_str("unavailable");
        },
    }
    let mut text = String::from_str("*#");
    push_decimal(&mut text, position.token_id as u128);
    text.append("* ");
    text.append(position.token0_symbol.as_str());
    text.append("/");
    text.append(position.token1_symbol.as_str());
    text.append(" — entry $");
    push_fixed(&mut text, position.entry_cost_usd, 2);
    text.append("\nPnL: ");
    text.append(pnl.as_str());
    text.append(" · ");
    match in_range {
        Some(true) => {
            text.append("in range");
        },
        Some(false) => {
            text.append("OUT OF RANGE");
        },
        None => {
            text.append("unknown");
        },
    }
    text
}

/// A position's line, given its profit or loss if that could be computed.
pub open spec fn listed(p: Position, pnl: Option<PositionPnl>) -> Seq<char> {
    match pnl {
        Some(v) => position_text(p, Some(v.pnl_percent), Some(v.pnl_usd), Some(v.in_range)),
        None => position_text(p, None, None, None),
    }
}

/// The first `n` positions, each followed by an empty line.
pub open spec fn position_lines(
    open: Seq<Position>,
    pnls: Seq<Option<PositionPnl>>,
    n: nat,
) -> Seq<Seq<char>>
    decreases n,
{
    if n == 0 {
        Seq::<Seq<char>>::empty().push("*Open positions:*"@).push(""@)
    } else {
        position_lines(open, pnls, (n - 1) as nat).push(listed(open[n - 1], pnls[n - 1])).push(""@)
    }
}

/// The list of open positions, each with its profit or loss where that could be
/// computed.
pub fn handle_positions_command(open: &Vec<Position>, pnls: &Vec<Option<PositionPnl>>) -> (r:
    OutMessage)
    requires
        open@.len() == pnls@.len(),
    ensures
        if open@.len() == 0 {
            r.says("No open positions."@, false)
        } else {
            r.says(under_each_other(position_lines(open@, pnls@, open@.len())), true)
        },
{
    if open.len() == 0 {
        return OutMessage::plain(String::from_str("No open positions."));
    }
    let mut lines: Vec<String> = Vec::new();
    assert(texts(lines@) =~= Seq::<Seq<char>>::empty());
    add_line(&mut lines, String::from_str("*Open positions:*"));
    add_line(&mut lines, String::from_str(""));
    let mut i: usize = 0;
    while i < open.len()
        invariant
            i <= open@.len(),
            open@.len() == pnls@.len(),
            texts(lines@) == position_lines(open@, pnls@, i as nat),
        decreases open@.len() - i,
    {
        let line = match pnls[i] {
            Some(pnl) => format_position_line(
                &open[i],
                Some(pnl.pnl_percent),
                Some(pnl.pnl_usd),
                Some(pnl.in_range),
            ),
            None => format_position_line(&open[i], None, None, None),
        };
        add_line(&mut lines, line);
        add_line(&mut lines, String::from_str(""));
        i = i + 1;
    }
    OutMessage::marked(join(&lines, "\n"))
}

} // verus!
