//! The `/check` command.
use vstd::prelude::*;
use vstd::string::*;

use crate::address::{parse_address, parsed_address, Address};
use crate::cycles::screening_due;
use crate::models::{PoolMetrics, ScreenResult};
use crate::storage::{StateFile, Storage};
use crate::telegram::alerts::{add_lp_button_data, add_lp_data, fee_percent, percent_of_fee};
use crate::telegram::message::{
    add_bullets, add_flag, add_line, add_number, bulleted, flag_line, maybe, number_line,
    number_text, numbered, under_each_other, OutMessage,
};
use crate::text::{join, split_white_space, texts, words};

verus! {

/// What a `/check` command comes to.
#[derive(Debug)]
pub enum CheckRequest {
    /// Check this pool; say first that it is looked up.
    Check { pool_hex: String, pool: Address, first: OutMessage },
    Say { message: OutMessage },
}

pub open spec fn check_usage() -> Seq<char> {
    "Usage: `/check <pool_address>`\nExample: `/check 0x1234…abcd`"@
}

fn around(before: &str, middle: &str, end: &str) -> (r: String)
    ensures
        r@ == before@ + middle@ + end@,
{
    let mut text = String::from_str(before);
    text.append(middle);
    text.append(end);
    text
}

/// The pool that a `/check` command names, or what is said where it names none.
pub fn handle_check_command(text: &str) -> (r: CheckRequest)
    ensures
        if words(text@).len() < 2 {
            r matches CheckRequest::Say { message } && message.says(check_usage(), true)
        } else {
            match parsed_address(words(text@)[1]) {
                Some(a) => r matches CheckRequest::Check { pool_hex, pool, first } && pool_hex@
                    == words(text@)[1] && pool == a && first.says(
                    "🔍 Looking up pool `"@ + words(text@)[1] + "`…"@,
                    true,
                ),
                None => r matches CheckRequest::Say { message } && message.says(
                    "❌ Invalid address: `"@ + words(text@)[1] + "`"@,
                    true,
                ),
            }
        },
{
    let parts = split_white_space(text);
    proof {
        assert(texts(parts@) == words(text@));
        assert(texts(parts@).len() == parts@.len());
    }
    if parts.len() < 2 {
        return CheckRequest::Say {
            message: OutMessage::marked(
                String::from_str("Usage: `/check <pool_address>`\nExample: `/check 0x1234…abcd`"),
            ),
        };
    }
    let pool_hex = parts[1].clone();
    assert(texts(parts@)[1] == parts@[1]@);
    match parse_address(pool_hex.as_str()) {
        Some(pool) => {
            let first = OutMessage::marked(
                around("🔍 Looking up pool `", pool_hex.as_str(), "`…"),
            );
            CheckRequest::Check { pool_hex, pool, first }
        },
        None => CheckRequest::Say {
            message: OutMessage::marked(
                around("❌ Invalid address: `", pool_hex.as_str(), "`"),
            ),
        },
    }
}

/// What is said where a pool's contract cannot be read.
pub fn unreadable_pool(pool_hex: &str, error: &str) -> (r: OutMessage)
    ensures
        r.says("❌ Could not read pool contract `"@ + pool_hex@ + "`:\n`"@ + error@ + "`"@, true),
{
    let mut text = around("❌ Could not read pool contract `", pool_hex, "`:\n`");
    text.append(error);
    text.append("`");
    OutMessage::marked(text)
}

/// What is said where a pool's metrics cannot be computed.
pub fn failed_metrics(pool_hex: &str, error: &str) -> (r: OutMessage)
    ensures
        r.says("❌ Failed to compute metrics for `"@ + pool_hex@ + "`:\n`"@ + error@ + "`"@, true),
{
    let mut text = around("❌ Failed to compute metrics for `", pool_hex, "`:\n`");
    text.append(error);
    text.append("`");
    OutMessage::marked(text)
}

pub open spec fn known_true(b: Option<bool>) -> bool {
    b == Some(true)
}

pub open spec fn check_head(pool_hex: Seq<char>, m: PoolMetrics, fee: u32) -> Seq<Seq<char>> {
    let l0 = Seq::<Seq<char>>::empty().push("*Pool:* `"@ + pool_hex + "`"@).push(
        number_text(
            "*Pair:* "@ + m.token0_symbol@ + "/"@ + m.token1_symbol@ + " (fee "@,
            fee_percent(fee),
            2,
            "%)"@,
        ),
    );
    let l1 = maybe(l0, number_line("*TVL:* $"@, m.tvl_usd, 0, ""@));
    let l2 = maybe(l1, number_line("*24h volume:* $"@, m.volume_24h_usd, 0, ""@));
    let l3 = maybe(l2, number_line("*Est. fee APR:* "@, m.apr_percent, 1, "%"@));
    let l4 = l3.push(number_text("*Age:* "@, m.age_hours, 1, "h"@));
    let l5 = maybe(
        l4,
        flag_line("*Token0 verified:* "@, Some(known_true(m.token0_verified)), "✅"@, "❌"@),
    );
    maybe(l5, flag_line("*Token1 verified:* "@, Some(known_true(m.token1_verified)), "✅"@, "❌"@))
}

/// The lines of the report on a pool that was checked.
pub open spec fn check_lines(pool_hex: Seq<char>, r: ScreenResult) -> Seq<Seq<char>> {
    bulleted(
        check_head(pool_hex, r.candidate.metrics, r.candidate.info.fee).push(""@).push(
            if r.passed {
                "🟢 *PASSED screening*"@
            } else {
                "🔴 *FAILED screening*"@
            },
        ).push("*Reasons:*"@),
        texts(r.reasons@),
    )
}

fn is_true(b: Option<bool>) -> (r: bool)
    ensures
        r == known_true(b),
{
    match b {
        Some(v) => v,
        None => false,
    }
}

/// The report on a pool that was checked; with a button that adds liquidity to it
/// where it passed.
pub fn check_report(pool_hex: &str, result: &ScreenResult) -> (r: OutMessage)
    ensures
        if result.passed {
            r.offers(
                under_each_other(check_lines(pool_hex@, *result)),
                "✅ Add LP now"@,
                add_lp_data(pool_hex@),
            )
        } else {
            r.says(under_each_other(check_lines(pool_hex@, *result)), true)
        },
{
    let m = &result.candidate.metrics;
    let mut lines: Vec<String> = Vec::new();
    assert(texts(lines@) =~= Seq::<Seq<char>>::empty());
    add_line(&mut lines, around("*Pool:* `", pool_hex, "`"));
    let mut pair = String::from_str("*Pair:* ");
    pair.append(m.token0_symbol.as_str());
    pair.append("/");
    pair.append(m.token1_symbol.as_str());
    pair.append(" (fee ");
    add_line(
        &mut lines,
        numbered(pair.as_str(), percent_of_fee(result.candidate.info.fee), 2, "%)"),
    );
    add_number(&mut lines, "*TVL:* $", m.tvl_usd, 0, "");
    add_number(&mut lines, "*24h volume:* $", m.volume_24h_usd, 0, "");
    add_number(&mut lines, "*Est. fee APR:* ", m.apr_percent, 1, "%");
    add_line(&mut lines, numbered("*Age:* ", m.age_hours, 1, "h"));
    add_flag(&mut lines, "*Token0 verified:* ", Some(is_true(m.token0_verified)), "✅", "❌");
    add_flag(&mut lines, "*Token1 verified:* ", Some(is_true(m.token1_verified)), "✅", "❌");
    add_line(&mut lines, String::from_str(""));
    if result.passed {
        add_line(&mut lines, String::from_str("🟢 *PASSED screening*"));
    } else {
        add_line(&mut lines, String::from_str("🔴 *FAILED screening*"));
    }
    add_line(&mut lines, String::from_str("*Reasons:*"));
    add_bullets(&mut lines, &result.reasons);
    let text = join(&lines, "\n");
    if result.passed {
        OutMessage::with_button(text, "✅ Add LP now", add_lp_button_data(pool_hex))
    } else {
        OutMessage::marked(text)
    }
}

/// Notes the outcome of a check: the pool is on record as alerted exactly where the
/// report was sent, so that the scan does not alert on it again. Nothing else changes.
pub fn conclude_check(storage: &mut Storage, pool: Address, report_sent: bool)
    requires
        old(storage).state.wf(),
    ensures
        final(storage).state.wf(),
        final(storage).state.alerted() == (if report_sent {
            old(storage).state.alerted().insert(pool)
        } else {
            old(storage).state.alerted()
        }),
        report_sent ==> !screening_due(final(storage).state, pool),
        final(storage).state == (StateFile {
            alerted_pools: final(storage).state.alerted_pools,
            ..old(storage).state
        }),
        !report_sent ==> final(storage).state == old(storage).state,
{
    if report_sent {
        storage.mark_alerted(pool);
    }
}

} // verus!
