//! Taps on the buttons that add liquidity and close positions.
use vstd::prelude::*;
use vstd::string::*;

use crate::address::{address_text, parse_address, parsed_address, Address};
use crate::chain::autoswap::{FailedLeg, SwapResult};
use crate::chain::lp::{CloseResult, LpResult};
use crate::config::AppConfig;
use crate::decimal::{decimal, parse_u64, parsed_u64, push_decimal};
use crate::double::Double;
use crate::models::Position;
use crate::storage::{closed_position, StateFile, Storage};
use crate::telegram::message::OutMessage;

verus! {

/// What an "Add LP" tap orders: so much USD of liquidity in a pool.
#[derive(Debug, Clone, Copy, PartialEq, Eq, Structural)]
pub struct AddLpOrder {
    pub pool: Address,
    pub usd_amount: Double,
}

/// What an "Add LP" tap orders, by the amount in the configuration; or what is said
/// where its pool cannot be read.
pub fn handle_add_lp_tap(cfg: &AppConfig, pool_hex: &str) -> (r: Result<AddLpOrder, OutMessage>)
    ensures
        match parsed_address(pool_hex@) {
            Some(pool) => r == Ok::<AddLpOrder, OutMessage>(
                AddLpOrder { pool, usd_amount: cfg.wallet.default_lp_usd_amount },
            ),
            None => r matches Err(m) && m.says(
                "Couldn't parse the pool address from that button — please check config/logs."@,
                false,
            ),
        },
{
    match parse_address(pool_hex) {
        Some(pool) => Ok(AddLpOrder { pool, usd_amount: cfg.wallet.default_lp_usd_amount }),
        None => Err(
            OutMessage::plain(
                String::from_str(
                    "Couldn't parse the pool address from that button — please check config/logs.",
                ),
            ),
        ),
    }
}

/// Whether a position is the record of a mint under `id`: open, in the ordered pool,
/// at the ordered cost.
pub open spec fn records(
    q: Position,
    id: u64,
    order: AddLpOrder,
    r: LpResult,
    token0_symbol: Seq<char>,
    token1_symbol: Seq<char>,
    now: u64,
) -> bool {
    &&& q.token_id == id
    &&& q.pool_address == order.pool
    &&& q.pool_created_block == 0
    &&& q.token0 == r.token0
    &&& q.token1 == r.token1
    &&& q.token0_symbol@ == token0_symbol
    &&& q.token1_symbol@ == token1_symbol
    &&& q.fee == r.fee
    &&& q.tick_lower == r.tick_lower
    &&& q.tick_upper == r.tick_upper
    &&& q.entry_cost_usd == order.usd_amount
    &&& q.entry_timestamp == now
    &&& q.mint_tx_hash@ == r.tx_hash@
    &&& !q.closed
}

/// The position to keep track of after a mint, if its id is known.
pub fn opened_position(
    order: AddLpOrder,
    r: &LpResult,
    token0_symbol: String,
    token1_symbol: String,
    now: u64,
) -> (p: Option<Position>)
    ensures
        match (r.token_id, p) {
            (Some(id), Some(q)) => records(
                q,
                id,
                order,
                *r,
                token0_symbol@,
                token1_symbol@,
                now,
            ),
            (None, None) => true,
            _ => false,
        },
{
    match r.token_id {
        Some(token_id) => Some(
            Position {
                token_id,
                pool_address: order.pool,
                pool_created_block: 0,
                token0: r.token0,
                token1: r.token1,
                token0_symbol,
                token1_symbol,
                fee: r.fee,
                tick_lower: r.tick_lower,
                tick_upper: r.tick_upper,
                entry_cost_usd: order.usd_amount,
                entry_timestamp: now,
                mint_tx_hash: r.tx_hash.clone(),
                closed: false,
            },
        ),
        None => None,
    }
}

/// The id under which an attempt to add liquidity is kept track of: none where it
/// failed or where the position's id is not known.
pub open spec fn kept_id(result: Result<LpResult, String>) -> Option<u64> {
    match result {
        Ok(r) => r.token_id,
        Err(_) => None,
    }
}

/// Notes the outcome of an attempt to add liquidity: a position is kept exactly where
/// one was opened and its id is known, with what was ordered and what was minted.
pub fn conclude_add_lp(
    storage: &mut Storage,
    order: AddLpOrder,
    result: &Result<LpResult, String>,
    token0_symbol: String,
    token1_symbol: String,
    now: u64,
)
    requires
        old(storage).state.wf(),
    ensures
        final(storage).state.wf(),
        match kept_id(*result) {
            Some(id) => {
                &&& records(
                    final(storage).state.known_positions()[id],
                    id,
                    order,
                    result->Ok_0,
                    token0_symbol@,
                    token1_symbol@,
                    now,
                )
                &&& final(storage).state.known_positions()
                    == old(storage).state.known_positions().insert(
                    id,
                    final(storage).state.known_positions()[id],
                )
            },
            None => final(storage).state == old(storage).state,
        },
        final(storage).state == (StateFile {
            positions: final(storage).state.positions,
            ..old(storage).state
        }),
{
    match result {
        Ok(r) => match opened_position(order, r, token0_symbol, token1_symbol, now) {
            Some(position) => {
                storage.add_position(position);
            },
            None => {},
        },
        Err(_) => {},
    }
}

/// What is said of an attempt to add liquidity.
pub open spec fn added_text(pool_hex: Seq<char>, result: Result<LpResult, String>) -> Seq<char> {
    match result {
        Ok(r) => {
            let sent = "✅ LP transaction sent\n[View on explorer]("@ + r.explorer_tx_url@ + ")"@;
            match r.token_id {
                Some(id) => sent + "\nTracking as position `#"@ + decimal(id as nat)
                    + "` — use /positions to check PnL any time."@,
                None => sent
                    + "\n⚠️ Couldn't parse a position ID from the transaction — PnL tracking won't be available for this position, but the LP was added successfully."@,
            }
        },
        Err(e) => "❌ Failed to add LP for `"@ + pool_hex + "`:\n`"@ + e@ + "`"@,
    }
}

/// What is said of an attempt to add liquidity.
pub fn add_lp_message(pool_hex: &str, result: &Result<LpResult, String>) -> (r: OutMessage)
    ensures
        r.says(added_text(pool_hex@, *result), true),
{
    match result {
        Ok(lp) => {
            let mut text = String::from_str("✅ LP transaction sent\n[View on explorer](");
            text.append(lp.explorer_tx_url.as_str());
            text.append(")");
            match lp.token_id {
                Some(id) => {
                    text.append("\nTracking as position `#");
                    push_decimal(&mut text, id as u128);
                    text.append("` — use /positions to check PnL any time.");
                },
                None => {
                    text.append(
                        "\n⚠️ Couldn't parse a position ID from the transaction — PnL tracking won't be available for this position, but the LP was added successfully.",
                    );
                },
            }
            OutMessage::marked(text)
        },
        Err(e) => {
            let mut text = String::from_str("❌ Failed to add LP for `");
            text.append(pool_hex);
            text.append("`:\n`");
            text.append(e.as_str());
            text.append("`");
            OutMessage::marked(text)
        },
    }
}

/// What a "Close position" tap comes to.
#[derive(Debug)]
pub enum CloseTap {
    Close { token_id: u64, pool_address: Address },
    Say { message: OutMessage },
}

/// The position that a "Close position" tap is about, or what is said where there is
/// no such position on record.
pub fn handle_close_tap(storage: &Storage, token_id_text: &str) -> (r: CloseTap)
    requires
        storage.state.wf(),
    ensures
        match parsed_u64(token_id_text@) {
            Some(id) => if storage.state.known_positions().dom().contains(id) {
                r == (CloseTap::Close {
                    token_id: id,
                    pool_address: storage.state.known_positions()[id].pool_address,
                })
            } else {
                r matches CloseTap::Say { message } && message.says(
                    "Don't have position `#"@ + decimal(id as nat)
                        + "` on record — can't determine its pool to close it safely."@,
                    false,
                )
            },
            None => r matches CloseTap::Say { message } && message.says(
                "Couldn't parse that position ID."@,
                false,
            ),
        },
{
    match parse_u64(token_id_text) {
        Some(id) => match storage.get_position(id) {
            Some(p) => CloseTap::Close { token_id: id, pool_address: p.pool_address },
            None => {
                let mut text = String::from_str("Don't have position `#");
                push_decimal(&mut text, id as u128);
                text.append("` on record — can't determine its pool to close it safely.");
                CloseTap::Say { message: OutMessage::plain(text) }
            },
        },
        None => CloseTap::Say {
            message: OutMessage::plain(String::from_str("Couldn't parse that position ID.")),
        },
    }
}

/// Notes the outcome of an attempt to close a position, which is on record as closed
/// exactly where that succeeded. Nothing else changes.
pub fn conclude_close(storage: &mut Storage, token_id: u64, closed: bool)
    requires
        old(storage).state.wf(),
    ensures
        final(storage).state.wf(),
        final(storage).state.known_positions() == (if closed
            && old(storage).state.known_positions().dom().contains(token_id) {
            old(storage).state.known_positions().insert(
                token_id,
                closed_position(old(storage).state.known_positions()[token_id]),
            )
        } else {
            old(storage).state.known_positions()
        }),
        final(storage).state == (StateFile {
            positions: final(storage).state.positions,
            ..old(storage).state
        }),
        !closed ==> final(storage).state == old(storage).state,
{
    if closed {
        storage.mark_position_closed(token_id);
    }
}

/// A text followed by a line for each of the first `n` swaps.
pub open spec fn with_swaps(text: Seq<char>, swaps: Seq<SwapResult>, n: nat) -> Seq<char>
    decreases n,
{
    if n == 0 {
        text
    } else {
        with_swaps(text, swaps, (n - 1) as nat) + "\n  `"@ + address_text(swaps[n - 1].token_in)
            + "` → ~"@ + decimal(swaps[n - 1].amount_out.value()) + " out"@
    }
}

/// A text followed by two lines for each of the first `n` legs that failed.
pub open spec fn with_failures(text: Seq<char>, legs: Seq<FailedLeg>, n: nat) -> Seq<char>
    decreases n,
{
    if n == 0 {
        text
    } else {
        with_failures(text, legs, (n - 1) as nat) + "\n  `"@ + address_text(
            legs[n - 1].stuck_token,
        ) + "` — "@ + decimal(legs[n - 1].stuck_amount.value())
            + " left in wallet as-is\n    reason: "@ + legs[n - 1].reason@
    }
}

pub open spec fn swaps_text(text: Seq<char>, swaps: Seq<SwapResult>) -> Seq<char> {
    if swaps.len() == 0 {
        text + "\nProceeds were already USDG — no swap needed."@
    } else {
        with_swaps(
            text + "\n🔄 Auto-swapped proceeds to USDG ("@ + decimal(swaps.len()) + " swap(s)):"@,
            swaps,
            swaps.len(),
        )
    }
}

pub open spec fn failures_text(text: Seq<char>, legs: Seq<FailedLeg>) -> Seq<char> {
    if legs.len() == 0 {
        text
    } else {
        with_failures(
            text
                + "\n\n⚠️ *Some proceeds couldn't be auto-swapped* (likely the token turned into a honeypot after screening — force-closed rather than blocking the whole close):"@,
            legs,
            legs.len(),
        )
            + "\nCheck /positions and your wallet balance — you may want to try swapping this manually or just hold it."@
    }
}

/// What is said of an attempt to close a position.
pub open spec fn closed_text(token_id: u64, result: Result<CloseResult, String>) -> Seq<char> {
    match result {
        Ok(r) => failures_text(
            swaps_text(
                "✅ Position `#"@ + decimal(token_id as nat) + "` closed.\n[View on explorer]("@
                    + r.explorer_tx_url@ + ")"@,
                r.swaps@,
            ),
            r.failed_legs@,
        ),
        Err(e) => "❌ Failed to close position `#"@ + decimal(token_id as nat) + "`:\n`"@ + e@
            + "`\n\nNote: if liquidity was already removed but the auto-swap step failed, funds are still safely in your wallet as the original two tokens — check /positions and the explorer before retrying."@,
    }
}

fn push_swaps(text: &mut String, swaps: &Vec<SwapResult>)
    ensures
        final(text)@ == swaps_text(old(text)@, swaps@),
{
    if swaps.len() == 0 {
        text.append("\nProceeds were already USDG — no swap needed.");
        return;
    }
    text.append("\n🔄 Auto-swapped proceeds to USDG (");
    push_decimal(text, swaps.len() as u128);
    text.append(" swap(s)):");
    let ghost head = text@;
    let mut i: usize = 0;
    while i < swaps.len()
        invariant
            i <= swaps@.len(),
            text@ == with_swaps(head, swaps@, i as nat),
        decreases swaps@.len() - i,
    {
        text.append("\n  `");
        text.append(swaps[i].token_in.text().as_str());
        text.append("` → ~");
        text.append(swaps[i].amount_out.text().as_str());
        text.append(" out");
        i = i + 1;
    }
}

fn push_failures(text: &mut String, legs: &Vec<FailedLeg>)
    ensures
        final(text)@ == failures_text(old(text)@, legs@),
{
    if legs.len() == 0 {
        return;
    }
    text.append(
        "\n\n⚠️ *Some proceeds couldn't be auto-swapped* (likely the token turned into a honeypot after screening — force-closed rather than blocking the whole close):",
    );
    let ghost head = text@;
    let mut i: usize = 0;
    while i < legs.len()
        invariant
            i <= legs@.len(),
            text@ == with_failures(head, legs@, i as nat),
        decreases legs@.len() - i,
    {
        text.append("\n  `");
        text.append(legs[i].stuck_token.text().as_str());
        text.append("` — ");
        text.append(legs[i].stuck_amount.text().as_str());
        text.append(" left in wallet as-is\n    reason: ");
        text.append(legs[i].reason.as_str());
        i = i + 1;
    }
    text.append(
        "\nCheck /positions and your wallet balance — you may want to try swapping this manually or just hold it.",
    );
}

/// What is said of an attempt to close a position.
pub fn close_message(token_id: u64, result: &Result<CloseResult, String>) -> (r: OutMessage)
    ensures
        r.says(closed_text(token_id, *result), true),
{
    match result {
        Ok(close) => {
            let mut text = String::from_str("✅ Position `#");
            push_decimal(&mut text, token_id as u128);
            text.append("` closed.\n[View on explorer](");
            text.append(close.explorer_tx_url.as_str());
            text.append(")");
            push_swaps(&mut text, &close.swaps);
            push_failures(&mut text, &close.failed_legs);
            OutMessage::marked(text)
        },
        Err(e) => {
            let mut text = String::from_str("❌ Failed to close position `#");
            push_decimal(&mut text, token_id as u128);
            text.append("`:\n`");
            text.append(e.as_str());
            text.append(
                "`\n\nNote: if liquidity was already removed but the auto-swap step failed, funds are still safely in your wallet as the original two tokens — check /positions and the explorer before retrying.",
            );
            OutMessage::marked(text)
        },
    }
}

/// The record of a position is open and has the position's own id, pool, tokens, fee and
/// range, each end at its own place, and what was paid for it.
pub proof fn law_record_is_of_the_mint(
    q: Position,
    id: u64,
    order: AddLpOrder,
    r: LpResult,
    token0_symbol: Seq<char>,
    token1_symbol: Seq<char>,
    now: u64,
)
    requires
        records(q, id, order, r, token0_symbol, token1_symbol, now),
    ensures
        q.token_id == id && !q.closed,
        q.pool_address == order.pool && q.entry_cost_usd == order.usd_amount,
        q.token0 == r.token0 && q.token1 == r.token1 && q.fee == r.fee,
        q.tick_lower == r.tick_lower && q.tick_upper == r.tick_upper,
        q.token0_symbol@ == token0_symbol && q.token1_symbol@ == token1_symbol,
        q.entry_timestamp == now && q.mint_tx_hash@ == r.tx_hash@,
{
}

} // verus!
