//! The `/dexscreener` command.
use vstd::prelude::*;
use vstd::string::*;

use crate::chain::dexscreener::{DexScreenerPair, TxnCount};
use crate::decimal::{decimal, fmt_num, push_decimal, thousands};
use crate::double::{at_most, Double};
use crate::fixed::{fixed, push_fixed};
use crate::numbers::TWO_HUNDRED_THOUSAND;
use crate::telegram::message::{add_line, maybe, under_each_other, OutMessage};
use crate::telegram::units::{
    age_text, average, avg_trade, compact, fmt_compact, format_age_ms, pct_of_24h, seconds_since,
    share_of_day,
};
use crate::text::{join, join_from, joined, padded, push_padded, split_white_space, texts, words};

verus! {

/// What a `/dexscreener` command comes to.
#[derive(Debug)]
pub enum LookupRequest {
    /// Search for this; say so first.
    Search { query: String, first: OutMessage },
    Say { message: OutMessage },
}

/// What a `/dexscreener` command asks for: the words behind the first.
pub open spec fn query_of(text: Seq<char>) -> Seq<char> {
    joined(words(text).skip(1), " "@)
}

/// What a `/dexscreener` command asks for, or how it is used where it asks for
/// nothing.
pub fn handle_dexscreener_command(text: &str) -> (r: LookupRequest)
    ensures
        if words(text@).len() < 2 {
            r matches LookupRequest::Say { message } && message.says(
                "Usage: `/dexscreener <token_address_or_symbol>`\nExample: `/dexscreener FRANK` or `/dexscreener 0xC36A…`"@,
                true,
            )
        } else {
            r matches LookupRequest::Search { query, first } && query@ == query_of(text@)
                && first.says("🔍 Searching DexScreener for `"@ + query_of(text@) + "`…"@, true)
        },
{
    let parts = split_white_space(text);
    proof {
        assert(texts(parts@) == words(text@));
        assert(texts(parts@).len() == parts@.len());
    }
    if parts.len() < 2 {
        return LookupRequest::Say {
            message: OutMessage::marked(
                String::from_str(
                    "Usage: `/dexscreener <token_address_or_symbol>`\nExample: `/dexscreener FRANK` or `/dexscreener 0xC36A…`",
                ),
            ),
        };
    }
    let query = join_from(&parts, 1, " ");
    let mut first = String::from_str("🔍 Searching DexScreener for `");
    first.append(query.as_str());
    first.append("`…");
    LookupRequest::Search { query, first: OutMessage::marked(first) }
}

/// What is said where the search failed.
pub fn search_failed(error: &str) -> (r: OutMessage)
    ensures
        r.says("❌ DexScreener search failed:\n`"@ + error@ + "`"@, true),
{
    let mut text = String::from_str("❌ DexScreener search failed:\n`");
    text.append(error);
    text.append("`");
    OutMessage::marked(text)
}

pub open spec fn row(
    tf: Seq<char>,
    buys: Seq<char>,
    sells: Seq<char>,
    volume: Seq<char>,
    trade: Seq<char>,
    share: Seq<char>,
) -> Seq<char> {
    ""@ + padded(tf, 3) + " "@ + padded(buys, 8) + " "@ + padded(sells, 8) + " "@ + padded(
        volume,
        10,
    ) + " "@ + padded(trade, 10) + " "@ + padded(share, 7)
}

fn table_row(tf: &str, buys: &str, sells: &str, volume: &str, trade: &str, share: &str) -> (r:
    String)
    ensures
        r@ == row(tf@, buys@, sells@, volume@, trade@, share@),
{
    let mut text = String::from_str("");
    push_padded(&mut text, tf, 3);
    text.append(" ");
    push_padded(&mut text, buys, 8);
    text.append(" ");
    push_padded(&mut text, sells, 8);
    text.append(" ");
    push_padded(&mut text, volume, 10);
    text.append(" ");
    push_padded(&mut text, trade, 10);
    text.append(" ");
    push_padded(&mut text, share, 7);
    text
}

/// The row of a window; `share` is its part of the last day.
pub open spec fn window_row(tf: Seq<char>, t: TxnCount, vol: Double, share: Seq<char>) -> Seq<char> {
    row(
        tf,
        thousands(t.buys as nat),
        thousands(t.sells as nat),
        compact(vol),
        average(vol, t.buys, t.sells),
        share,
    )
}

fn push_window(lines: &mut Vec<String>, tf: &str, t: TxnCount, vol: Double, share: &str)
    requires
        t.buys + t.sells <= u64::MAX,
    ensures
        texts(final(lines)@) == texts(old(lines)@).push(window_row(tf@, t, vol, share@)),
{
    let buys = fmt_num(t.buys);
    let sells = fmt_num(t.sells);
    let volume = fmt_compact(vol);
    let trade = avg_trade(vol, t.buys, t.sells);
    add_line(
        lines,
        table_row(tf, buys.as_str(), sells.as_str(), volume.as_str(), trade.as_str(), share),
    );
}

/// Whether the transactions of every window can be added up.
pub open spec fn countable(p: DexScreenerPair) -> bool {
    &&& p.txns.h24.buys + p.txns.h24.sells <= u64::MAX
    &&& p.txns.h6.buys + p.txns.h6.sells <= u64::MAX
    &&& p.txns.h1.buys + p.txns.h1.sells <= u64::MAX
    &&& p.txns.m5.buys + p.txns.m5.sells <= u64::MAX
}

pub open spec fn pair_title(i: nat, p: DexScreenerPair, now_ms: u64) -> Seq<char> {
    "📊 *#"@ + decimal(i + 1) + " "@ + p.base_token.symbol@ + " / "@ + p.quote_token.symbol@ + "* · "@
        + p.chain_id@ + " · Age: *"@ + age_text(seconds_since(p.pair_created_at, now_ms))
        + "* · Price: *"@ + p.price_usd@ + "*"@
}

pub open spec fn compact_part(icon: Seq<char>, v: Option<Double>) -> Option<Seq<char>> {
    match v {
        Some(x) => Some(icon + compact(x)),
        None => None,
    }
}

pub open spec fn change_part(v: Option<Double>) -> Option<Seq<char>> {
    match v {
        Some(pc) => Some(
            "24h "@ + (if at_most(Double { bits: 0 }, pc) {
                "🟢"@
            } else {
                "🔴"@
            }) + " "@ + fixed(pc, 2) + "%"@,
        ),
        None => None,
    }
}

pub open spec fn liquidity_of(p: DexScreenerPair) -> Option<Double> {
    match p.liquidity {
        Some(l) => Some(l.usd),
        None => None,
    }
}

/// The parts of the summary line.
pub open spec fn summary_parts(p: DexScreenerPair) -> Seq<Seq<char>> {
    let s1 = maybe(Seq::empty(), compact_part("💧 "@, liquidity_of(p)));
    let s2 = maybe(s1, compact_part("🏦 "@, p.fdv));
    let s3 = maybe(s2, compact_part("📈 "@, p.market_cap));
    maybe(s3, change_part(p.price_change.h24))
}

pub open spec fn table_lines(lines: Seq<Seq<char>>, p: DexScreenerPair) -> Seq<Seq<char>> {
    let day = p.volume.h24;
    lines.push("```"@).push(
        row("TF"@, "Buys"@, "Sells"@, "Volume"@, "AvgTrade"@, "vs24h"@),
    ).push(window_row("24h"@, p.txns.h24, day, "—"@)).push(
        window_row("6h"@, p.txns.h6, p.volume.h6, share_of_day(p.volume.h6, day)),
    ).push(window_row("1h"@, p.txns.h1, p.volume.h1, share_of_day(p.volume.h1, day))).push(
        window_row("5m"@, p.txns.m5, p.volume.m5, share_of_day(p.volume.m5, day)),
    ).push("```"@)
}

/// The lines of the message on the pair in place `i` of the list.
pub open spec fn pair_lines(i: nat, p: DexScreenerPair, now_ms: u64) -> Seq<Seq<char>> {
    let head = Seq::<Seq<char>>::empty().push(pair_title(i, p, now_ms)).push(p.pair_address@);
    let table = table_lines(head, p);
    let summed = if summary_parts(p).len() == 0 {
        table
    } else {
        table.push(joined(summary_parts(p), " · "@))
    };
    summed.push("[Open on DexScreener]("@ + p.url@ + ")"@)
}

fn title_of(i: usize, p: &DexScreenerPair, now_ms: u64) -> (r: String)
    requires
        i < usize::MAX,
    ensures
        r@ == pair_title(i as nat, *p, now_ms),
{
    let age = format_age_ms(p.pair_created_at, now_ms);
    let mut title = String::from_str("📊 *#");
    push_decimal(&mut title, (i + 1) as u128);
    title.append(" ");
    title.append(p.base_token.symbol.as_str());
    title.append(" / ");
    title.append(p.quote_token.symbol.as_str());
    title.append("* · ");
    title.append(p.chain_id.as_str());
    title.append(" · Age: *");
    title.append(age.as_str());
    title.append("* · Price: *");
    title.append(p.price_usd.as_str());
    title.append("*");
    title
}

fn add_compact(parts: &mut Vec<String>, icon: &str, v: Option<Double>)
    ensures
        texts(final(parts)@) == maybe(texts(old(parts)@), compact_part(icon@, v)),
{
    match v {
        Some(x) => {
            let mut text = String::from_str(icon);
            text.append(fmt_compact(x).as_str());
            add_line(parts, text);
        },
        None => {},
    }
}

fn summary_of(p: &DexScreenerPair) -> (r: Vec<String>)
    ensures
        texts(r@) == summary_parts(*p),
{
    let mut parts: Vec<String> = Vec::new();
    assert(texts(parts@) =~= Seq::<Seq<char>>::empty());
    let liquidity = match p.liquidity {
        Some(l) => Some(l.usd),
        None => None,
    };
    add_compact(&mut parts, "💧 ", liquidity);
    add_compact(&mut parts, "🏦 ", p.fdv);
    add_compact(&mut parts, "📈 ", p.market_cap);
    match p.price_change.h24 {
        Some(pc) => {
            let mut text = String::from_str("24h ");
            if (Double { bits: 0 }).no_more_than(pc) {
                text.append("🟢");
            } else {
                text.append("🔴");
            }
            text.append(" ");
            push_fixed(&mut text, pc, 2);
            text.append("%");
            add_line(&mut parts, text);
        },
        None => {},
    }
    parts
}

fn add_table(lines: &mut Vec<String>, p: &DexScreenerPair)
    requires
        countable(*p),
    ensures
        texts(final(lines)@) == table_lines(texts(old(lines)@), *p),
{
    let day = p.volume.h24;
    add_line(lines, String::from_str("```"));
    add_line(lines, table_row("TF", "Buys", "Sells", "Volume", "AvgTrade", "vs24h"));
    push_window(lines, "24h", p.txns.h24, day, "—");
    let share6 = pct_of_24h(p.volume.h6, day);
    push_window(lines, "6h", p.txns.h6, p.volume.h6, share6.as_str());
    let share1 = pct_of_24h(p.volume.h1, day);
    push_window(lines, "1h", p.txns.h1, p.volume.h1, share1.as_str());
    let share5 = pct_of_24h(p.volume.m5, day);
    push_window(lines, "5m", p.txns.m5, p.volume.m5, share5.as_str());
    add_line(lines, String::from_str("```"));
}

/// The message on the pair in place `i` of the list, with a table of its windows.
pub fn dexscreener_pair_message(i: usize, p: &DexScreenerPair, now_ms: u64) -> (r: String)
    requires
        i < usize::MAX,
        countable(*p),
    ensures
        r@ == under_each_other(pair_lines(i as nat, *p, now_ms)),
{
    let mut lines: Vec<String> = Vec::new();
    assert(texts(lines@) =~= Seq::<Seq<char>>::empty());
    add_line(&mut lines, title_of(i, p, now_ms));
    add_line(&mut lines, p.pair_address.clone());
    add_table(&mut lines, p);
    let parts = summary_of(p);
    assert(texts(parts@).len() == parts@.len());
    if parts.len() > 0 {
        add_line(&mut lines, join(&parts, " · "));
    }
    let mut link = String::from_str("[Open on DexScreener](");
    link.append(p.url.as_str());
    link.append(")");
    add_line(&mut lines, link);
    join(&lines, "\n")
}

/// The places of the pairs with enough volume in the last day, among the first `n`.
pub open spec fn busy_places(pairs: Seq<DexScreenerPair>, n: nat) -> Seq<usize>
    decreases n,
{
    if n == 0 {
        Seq::empty()
    } else if at_most(Double { bits: TWO_HUNDRED_THOUSAND }, pairs[n - 1].volume.h24) {
        busy_places(pairs, (n - 1) as nat).push((n - 1) as usize)
    } else {
        busy_places(pairs, (n - 1) as nat)
    }
}

/// What the "Copy" button of a pool sends back.
pub open spec fn copy_data(address: Seq<char>) -> Seq<char> {
    "copyaddr:"@ + address
}

/// What the "Copy" button of a pool sends back.
pub fn copy_button_data(address: &str) -> (r: String)
    ensures
        r@ == copy_data(address@),
{
    let mut data = String::from_str("copyaddr:");
    data.append(address);
    data
}

/// Whether the `i`th message is the one on the `i`th pair of a list.
pub open spec fn shows_pair(m: OutMessage, i: nat, p: DexScreenerPair, now_ms: u64) -> bool {
    m.offers(
        under_each_other(pair_lines(i, p, now_ms)),
        "📋 Copy pool address"@,
        copy_data(p.pair_address@),
    )
}

/// The answer to a search: a message on each of the first five pairs with at least
/// $200k volume in the last day, or that there are none.
pub fn search_messages(query: &str, pairs: &Vec<DexScreenerPair>, now_ms: u64) -> (r: Vec<OutMessage>)
    requires
        forall|i: int| 0 <= i < pairs@.len() ==> countable(#[trigger] pairs@[i]),
    ensures
        ({
            let busy = busy_places(pairs@, pairs@.len());
            if busy.len() == 0 {
                r@.len() == 1 && r@[0].says(
                    "No results with >=$200k 24h volume found for `"@ + query@
                        + "` on DexScreener."@,
                    true,
                )
            } else {
                r@.len() == (if busy.len() > 5 {
                    5
                } else {
                    busy.len()
                }) && forall|i: int|
                    0 <= i < r@.len() ==> shows_pair(
                        #[trigger] r@[i],
                        i as nat,
                        pairs@[busy[i] as int],
                        now_ms,
                    )
            }
        }),
{
    let mut busy: Vec<usize> = Vec::new();
    let mut i: usize = 0;
    while i < pairs.len()
        invariant
            i <= pairs@.len(),
            busy@ == busy_places(pairs@, i as nat),
            forall|j: int| 0 <= j < busy@.len() ==> (#[trigger] busy@[j]) < pairs@.len(),
        decreases pairs@.len() - i,
    {
        if (Double { bits: TWO_HUNDRED_THOUSAND }).no_more_than(pairs[i].volume.h24) {
            busy.push(i);
        }
        i = i + 1;
    }
    let mut messages: Vec<OutMessage> = Vec::new();
    if busy.len() == 0 {
        let mut text = String::from_str("No results with >=$200k 24h volume found for `");
        text.append(query);
        text.append("` on DexScreener.");
        messages.push(OutMessage::marked(text));
        return messages;
    }
    let mut k: usize = 0;
    while k < busy.len() && k < 5
        invariant
            k <= busy@.len(),
            k <= 5,
            messages@.len() == k,
            forall|j: int| 0 <= j < pairs@.len() ==> countable(#[trigger] pairs@[j]),
            forall|j: int| 0 <= j < busy@.len() ==> (#[trigger] busy@[j]) < pairs@.len(),
            forall|j: int|
                0 <= j < k ==> shows_pair(
                    #[trigger] messages@[j],
                    j as nat,
                    pairs@[busy@[j] as int],
                    now_ms,
                ),
        decreases busy@.len() - k,
    {
        let p = &pairs[busy[k]];
        messages.push(
            OutMessage::with_button(
                dexscreener_pair_message(k, p, now_ms),
                "📋 Copy pool address",
                copy_button_data(p.pair_address.as_str()),
            ),
        );
        k = k + 1;
    }
    messages
}

} // verus!
