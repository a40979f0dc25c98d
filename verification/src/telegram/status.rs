//! The commands that switch screening on and off and show the status.
use vstd::prelude::*;
use vstd::string::*;

use crate::config::AppConfig;
use crate::decimal::{decimal, push_decimal};
use crate::telegram::message::{
    add_flag, add_line, add_number, flag_line, maybe, number_line, under_each_other, OutMessage,
};
use crate::text::{join, texts};

verus! {

pub open spec fn toggle_text(enabled: bool, poll_interval_secs: u64) -> Seq<char> {
    if enabled {
        "🟢 ON\n\nAuto-screening is now *enabled*. The bot will discover and screen new pools every "@
            + decimal(poll_interval_secs as nat) + "s."@
    } else {
        "🔴 OFF\n\nAuto-screening is now *disabled*. Use `/check <pool_address>` to manually verify any pool before adding LP."@
    }
}

/// Switches screening on or off, and says so.
pub fn handle_toggle_command(cfg: &AppConfig, enabled: bool) -> (r: (bool, OutMessage))
    ensures
        r.0 == !enabled,
        r.1.says(toggle_text(!enabled, cfg.screening.poll_interval_secs), true),
{
    if enabled {
        (
            false,
            OutMessage::marked(
                String::from_str(
                    "🔴 OFF\n\nAuto-screening is now *disabled*. Use `/check <pool_address>` to manually verify any pool before adding LP.",
                ),
            ),
        )
    } else {
        let mut text = String::from_str(
            "🟢 ON\n\nAuto-screening is now *enabled*. The bot will discover and screen new pools every ",
        );
        push_decimal(&mut text, cfg.screening.poll_interval_secs as u128);
        text.append("s.");
        (true, OutMessage::marked(text))
    }
}

/// The lines on the settings.
pub open spec fn settings_lines(cfg: AppConfig) -> Seq<Seq<char>> {
    let s = cfg.screening;
    let l0 = Seq::<Seq<char>>::empty().push("*Bot status:*"@).push(""@);
    let l1 = maybe(l0, flag_line("*Auto-screening:* "@, Some(s.enabled), "🟢 ON"@, "🔴 OFF"@));
    let l2 = l1.push("*Poll interval:* "@ + decimal(s.poll_interval_secs as nat) + "s"@);
    let l3 = maybe(l2, number_line("*Min TVL:* $"@, Some(s.min_tvl_usd), 0, ""@));
    let l4 = maybe(l3, number_line("*Min volume:* $"@, Some(s.min_volume_24h_usd), 0, ""@));
    let l5 = maybe(l4, number_line("*Min APR:* "@, Some(s.min_apr_percent), 0, "%"@));
    let l6 = maybe(l5, number_line("*Max APR:* "@, Some(s.max_apr_percent), 0, "%"@));
    let l7 = maybe(l6, number_line("*Min age:* "@, Some(s.min_pool_age_hours), 0, "h"@));
    maybe(
        l7,
        flag_line(
            "*Verified tokens required:* "@,
            Some(s.require_verified_tokens),
            "yes"@,
            "no"@,
        ),
    )
}

/// The lines on the settings and on the commands.
pub open spec fn status_lines(cfg: AppConfig) -> Seq<Seq<char>> {
    settings_lines(cfg).push(""@).push("*Commands:*"@).push(
        "`/check <address>` — score a pool manually"@,
    ).push("`/dexscreener <symbol>` — quick DexScreener lookup"@).push(
        "`/dextools_top10` — top 10 DexTools pools (Robinhood, V3, score>=70)"@,
    ).push("`/uniswap_top10` — top 10 Uniswap v3 pools on Robinhood chain"@).push(
        "`/toggle_screening` — flip auto-screening on/off"@,
    ).push("`/positions` — list open positions"@)
}

/// The settings and the commands.
pub fn handle_status_command(cfg: &AppConfig) -> (r: OutMessage)
    ensures
        r.says(under_each_other(status_lines(*cfg)), true),
{
    let s = &cfg.screening;
    let mut lines: Vec<String> = Vec::new();
    assert(texts(lines@) =~= Seq::<Seq<char>>::empty());
    add_line(&mut lines, String::from_str("*Bot status:*"));
    add_line(&mut lines, String::from_str(""));
    add_flag(&mut lines, "*Auto-screening:* ", Some(s.enabled), "🟢 ON", "🔴 OFF");
    let mut poll = String::from_str("*Poll interval:* ");
    push_decimal(&mut poll, s.poll_interval_secs as u128);
    poll.append("s");
    add_line(&mut lines, poll);
    add_number(&mut lines, "*Min TVL:* $", Some(s.min_tvl_usd), 0, "");
    add_number(&mut lines, "*Min volume:* $", Some(s.min_volume_24h_usd), 0, "");
    add_number(&mut lines, "*Min APR:* ", Some(s.min_apr_percent), 0, "%");
    add_number(&mut lines, "*Max APR:* ", Some(s.max_apr_percent), 0, "%");
    add_number(&mut lines, "*Min age:* ", Some(s.min_pool_age_hours), 0, "h");
    add_flag(
        &mut lines,
        "*Verified tokens required:* ",
        Some(s.require_verified_tokens),
        "yes",
        "no",
    );
    add_line(&mut lines, String::from_str(""));
    add_line(&mut lines, String::from_str("*Commands:*"));
    add_line(&mut lines, String::from_str("`/check <address>` — score a pool manually"));
    add_line(&mut lines, String::from_str("`/dexscreener <symbol>` — quick DexScreener lookup"));
    add_line(
        &mut lines,
        String::from_str("`/dextools_top10` — top 10 DexTools pools (Robinhood, V3, score>=70)"),
    );
    add_line(
        &mut lines,
        String::from_str("`/uniswap_top10` — top 10 Uniswap v3 pools on Robinhood chain"),
    );
    add_line(&mut lines, String::from_str("`/toggle_screening` — flip auto-screening on/off"));
    add_line(&mut lines, String::from_str("`/positions` — list open positions"));
    OutMessage::marked(join(&lines, "\n"))
}

} // verus!
