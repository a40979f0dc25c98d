//! Which of the security services the reasons of a screening name.
use vstd::prelude::*;

use crate::config::ScreeningConfig;
use crate::decimal::{decimal, digit_char, last_digits, ten_power};
use crate::double::{of_nat, Double};
use crate::fixed::{fixed, scaled, unsigned_fixed};
use crate::models::PoolMetrics;
use crate::screener::{
    age_check, apr_check, blacklist_check, buy_tax_check, checks, component, count_of, dev_check,
    gecko_checks, gecko_honeypot_check, goplus_checks, goplus_honeypot_check, gt_score_check,
    gt_verified_check, holder_check, honeypot_check, lp_locked_check, mintable_check,
    ownership_check, reasons_of, sell_tax_check, threshold_check, top10_check, traders_check,
    tvl_check, two_numbers, unknown, unverified_symbol, verified_check, volume_check, Verdict,
};
use crate::text::{contains_text, holds_at};

verus! {

/// Whether every `G` of a text is followed, in the text, by something other than `c`.
spec fn avoids(s: Seq<char>, c: char) -> bool {
    forall|i: int|
        0 <= i < s.len() && #[trigger] s[i] == 'G' ==> i + 1 < s.len() && s[i + 1] != c
}

/// `avoids`, from the place `i` on.
spec fn avoids_from(s: Seq<char>, c: char, i: int) -> bool
    decreases s.len() - i,
{
    if i >= s.len() {
        true
    } else {
        (s[i] == 'G' ==> i + 1 < s.len() && s[i + 1] != c) && avoids_from(s, c, i + 1)
    }
}

proof fn lemma_avoids_at(s: Seq<char>, c: char, i: int, k: int)
    requires
        avoids_from(s, c, i),
        i <= k < s.len(),
        s[k] == 'G',
    ensures
        k + 1 < s.len(),
        s[k + 1] != c,
    decreases k - i,
{
    if i < k {
        lemma_avoids_at(s, c, i + 1, k);
    }
}

proof fn lemma_literal(s: Seq<char>, c: char)
    requires
        avoids_from(s, c, 0),
    ensures
        avoids(s, c),
{
    assert forall|i: int| 0 <= i < s.len() && #[trigger] s[i] == 'G' implies i + 1 < s.len() && s[i
        + 1] != c by {
        lemma_avoids_at(s, c, 0, i);
    }
}

proof fn lemma_avoids_append(a: Seq<char>, b: Seq<char>, c: char)
    requires
        avoids(a, c),
        avoids(b, c),
    ensures
        avoids(a + b, c),
{
    let s = a + b;
    assert forall|i: int| 0 <= i < s.len() && #[trigger] s[i] == 'G' implies i + 1 < s.len() && s[i
        + 1] != c by {
        if i < a.len() {
            assert(a[i] == 'G');
        } else {
            assert(b[i - a.len()] == 'G');
        }
    }
}

/// Whether a text has no `G`.
spec fn without_g(s: Seq<char>) -> bool {
    forall|i: int| 0 <= i < s.len() ==> #[trigger] s[i] != 'G'
}

proof fn lemma_digit(n: nat)
    requires
        n < 10,
    ensures
        digit_char(n) != 'G',
{
}

proof fn lemma_decimal(n: nat)
    ensures
        without_g(decimal(n)),
    decreases n,
{
    if n < 10 {
        lemma_digit(n);
    } else {
        lemma_decimal(n / 10);
        lemma_digit(n % 10);
    }
}

proof fn lemma_last_digits(n: nat, width: nat)
    ensures
        without_g(last_digits(n, width)),
    decreases width,
{
    if width > 0 {
        lemma_last_digits(n / 10, (width - 1) as nat);
        lemma_digit(n % 10);
    }
}

/// A number in a text brings no `G` with it.
proof fn lemma_number(x: Double, d: nat, c: char)
    ensures
        avoids(fixed(x, d), c),
{
    reveal_strlit("inf");
    reveal_strlit("NaN");
    lemma_decimal(scaled(x, d));
    lemma_decimal(scaled(x, d) / ten_power(d));
    lemma_last_digits(scaled(x, d), d);
    assert(without_g("inf"@));
    assert(without_g("NaN"@));
    assert(without_g(unsigned_fixed(x, d)));
    assert(without_g(fixed(x, d)));
}

proof fn lemma_two_numbers(
    a: Seq<char>,
    x: Double,
    b: Seq<char>,
    y: Double,
    end: Seq<char>,
    d: nat,
    c: char,
)
    requires
        avoids(a, c),
        avoids(b, c),
        avoids(end, c),
    ensures
        avoids(two_numbers(a, x, b, y, end, d), c),
{
    lemma_number(x, d, c);
    lemma_number(y, d, c);
    lemma_avoids_append(a, fixed(x, d), c);
    lemma_avoids_append(a + fixed(x, d), b, c);
    lemma_avoids_append(a + fixed(x, d) + b, fixed(y, d), c);
    lemma_avoids_append(a + fixed(x, d) + b + fixed(y, d), end, c);
}

/// Whether no reason holds `name`.
spec fn unnamed(verdicts: Seq<Verdict>, name: Seq<char>) -> bool {
    forall|i: int| 0 <= i < verdicts.len() ==> !contains_text((#[trigger] verdicts[i]).reason, name)
}

proof fn lemma_unnamed_append(a: Seq<Verdict>, b: Seq<Verdict>, name: Seq<char>)
    requires
        unnamed(a, name),
        unnamed(b, name),
    ensures
        unnamed(a + b, name),
{
    assert forall|i: int| 0 <= i < (a + b).len() implies !contains_text(
        (#[trigger] (a + b)[i]).reason,
        name,
    ) by {
        if i < a.len() {
            assert((a + b)[i] == a[i]);
        } else {
            assert((a + b)[i] == b[i - a.len()]);
        }
    }
}

/// Whether a name begins with a `G` and `c` and has no space.
spec fn begins_g(name: Seq<char>, c: char) -> bool {
    &&& name.len() >= 2
    &&& name[0] == 'G'
    &&& name[1] == c
    &&& forall|i: int| 0 <= i < name.len() ==> #[trigger] name[i] != ' '
}

/// A text that avoids a name's first two letters does not hold it.
proof fn lemma_not_named(s: Seq<char>, name: Seq<char>, c: char)
    requires
        avoids(s, c),
        begins_g(name, c),
    ensures
        !contains_text(s, name),
{
    if contains_text(s, name) {
        let i = choose|i: int| holds_at(s, name, i);
        assert(s[i] == name[0]);
        assert(s[i + 1] == name[1]);
    }
}

/// A single reason that avoids a name's first two letters.
proof fn lemma_single_reason(v: Verdict, name: Seq<char>, c: char)
    requires
        avoids(v.reason, c),
        begins_g(name, c),
    ensures
        unnamed(seq![v], name),
{
    lemma_not_named(v.reason, name, c);
}

proof fn lemma_tvl_reasons(m: PoolMetrics, cfg: ScreeningConfig, name: Seq<char>, c: char)
    requires
        begins_g(name, c),
    ensures
        unnamed(tvl_check(m, cfg), name),
{
    assert(avoids("TVL $"@, c)) by {
        reveal_strlit("TVL $");
        reveal_with_fuel(avoids_from, 6);
        lemma_literal("TVL $"@, c);
    }
    assert(avoids(" >= min $"@, c)) by {
        reveal_strlit(" >= min $");
        reveal_with_fuel(avoids_from, 10);
        lemma_literal(" >= min $"@, c);
    }
    assert(avoids(" below min $"@, c)) by {
        reveal_strlit(" below min $");
        reveal_with_fuel(avoids_from, 13);
        lemma_literal(" below min $"@, c);
    }
    assert(avoids(""@, c)) by {
        reveal_strlit("");
        reveal_with_fuel(avoids_from, 1);
        lemma_literal(""@, c);
    }
    assert(avoids("TVL unpriceable (neither side is WETH/USDC)"@, c)) by {
        reveal_strlit("TVL unpriceable (neither side is WETH/USDC)");
        reveal_with_fuel(avoids_from, 44);
        lemma_literal("TVL unpriceable (neither side is WETH/USDC)"@, c);
    }
    match m.tvl_usd {
        Some(tvl) => {
            lemma_two_numbers("TVL $"@, tvl, " >= min $"@, cfg.min_tvl_usd, ""@, 0, c);
            lemma_two_numbers("TVL $"@, tvl, " below min $"@, cfg.min_tvl_usd, ""@, 0, c);
        },
        None => {},
    }
    let v = tvl_check(m, cfg);
    if v.len() > 0 {
        assert(v =~= seq![v[0]]);
        lemma_single_reason(v[0], name, c);
    }
}

proof fn lemma_volume_reasons(m: PoolMetrics, cfg: ScreeningConfig, name: Seq<char>, c: char)
    requires
        begins_g(name, c),
    ensures
        unnamed(volume_check(m, cfg), name),
{
    assert(avoids("24h volume $"@, c)) by {
        reveal_strlit("24h volume $");
        reveal_with_fuel(avoids_from, 13);
        lemma_literal("24h volume $"@, c);
    }
    assert(avoids(" >= min $"@, c)) by {
        reveal_strlit(" >= min $");
        reveal_with_fuel(avoids_from, 10);
        lemma_literal(" >= min $"@, c);
    }
    assert(avoids(" below min $"@, c)) by {
        reveal_strlit(" below min $");
        reveal_with_fuel(avoids_from, 13);
        lemma_literal(" below min $"@, c);
    }
    assert(avoids(""@, c)) by {
        reveal_strlit("");
        reveal_with_fuel(avoids_from, 1);
        lemma_literal(""@, c);
    }
    assert(avoids("Volume unpriceable"@, c)) by {
        reveal_strlit("Volume unpriceable");
        reveal_with_fuel(avoids_from, 19);
        lemma_literal("Volume unpriceable"@, c);
    }
    match m.volume_24h_usd {
        Some(v) => {
            let least = cfg.min_volume_24h_usd;
            lemma_two_numbers("24h volume $"@, v, " >= min $"@, least, ""@, 0, c);
            lemma_two_numbers("24h volume $"@, v, " below min $"@, least, ""@, 0, c);
        },
        None => {},
    }
    let v = volume_check(m, cfg);
    if v.len() > 0 {
        assert(v =~= seq![v[0]]);
        lemma_single_reason(v[0], name, c);
    }
}

proof fn lemma_apr_reasons(m: PoolMetrics, cfg: ScreeningConfig, name: Seq<char>, c: char)
    requires
        begins_g(name, c),
    ensures
        unnamed(apr_check(m, cfg), name),
{
    assert(avoids("Estimated APR "@, c)) by {
        reveal_strlit("Estimated APR ");
        reveal_with_fuel(avoids_from, 15);
        lemma_literal("Estimated APR "@, c);
    }
    assert(avoids("% within ["@, c)) by {
        reveal_strlit("% within [");
        reveal_with_fuel(avoids_from, 11);
        lemma_literal("% within ["@, c);
    }
    assert(avoids("%, "@, c)) by {
        reveal_strlit("%, ");
        reveal_with_fuel(avoids_from, 4);
        lemma_literal("%, "@, c);
    }
    assert(avoids("%]"@, c)) by {
        reveal_strlit("%]");
        reveal_with_fuel(avoids_from, 3);
        lemma_literal("%]"@, c);
    }
    assert(avoids("% looks unsustainably high (> "@, c)) by {
        reveal_strlit("% looks unsustainably high (> ");
        reveal_with_fuel(avoids_from, 31);
        lemma_literal("% looks unsustainably high (> "@, c);
    }
    assert(avoids("%) — likely low liquidity / manipulated, treated as a red flag not a bonus"@, c)) by {
        reveal_strlit("%) — likely low liquidity / manipulated, treated as a red flag not a bonus");
        reveal_with_fuel(avoids_from, 75);
        lemma_literal("%) — likely low liquidity / manipulated, treated as a red flag not a bonus"@, c);
    }
    assert(avoids("% below min "@, c)) by {
        reveal_strlit("% below min ");
        reveal_with_fuel(avoids_from, 13);
        lemma_literal("% below min "@, c);
    }
    assert(avoids("%"@, c)) by {
        reveal_strlit("%");
        reveal_with_fuel(avoids_from, 2);
        lemma_literal("%"@, c);
    }
    assert(avoids("APR unpriceable"@, c)) by {
        reveal_strlit("APR unpriceable");
        reveal_with_fuel(avoids_from, 16);
        lemma_literal("APR unpriceable"@, c);
    }
    match m.apr_percent {
        Some(apr) => {
            let (least, most) = (cfg.min_apr_percent, cfg.max_apr_percent);
            let head = two_numbers("Estimated APR "@, apr, "% within ["@, least, "%, "@, 1);
            lemma_two_numbers("Estimated APR "@, apr, "% within ["@, least, "%, "@, 1, c);
            lemma_number(most, 1, c);
            lemma_avoids_append(head, fixed(most, 1), c);
            lemma_avoids_append(head + fixed(most, 1), "%]"@, c);
            lemma_two_numbers(
                "Estimated APR "@,
                apr,
                "% looks unsustainably high (> "@,
                most,
                "%) — likely low liquidity / manipulated, treated as a red flag not a bonus"@,
                1,
                c,
            );
            lemma_two_numbers("Estimated APR "@, apr, "% below min "@, least, "%"@, 1, c);
        },
        None => {},
    }
    let v = apr_check(m, cfg);
    if v.len() > 0 {
        assert(v =~= seq![v[0]]);
        lemma_single_reason(v[0], name, c);
    }
}

proof fn lemma_age_reasons(m: PoolMetrics, cfg: ScreeningConfig, name: Seq<char>, c: char)
    requires
        begins_g(name, c),
    ensures
        unnamed(age_check(m, cfg), name),
{
    assert(avoids("Pool age "@, c)) by {
        reveal_strlit("Pool age ");
        reveal_with_fuel(avoids_from, 10);
        lemma_literal("Pool age "@, c);
    }
    assert(avoids("h >= min "@, c)) by {
        reveal_strlit("h >= min ");
        reveal_with_fuel(avoids_from, 10);
        lemma_literal("h >= min "@, c);
    }
    assert(avoids("h below min "@, c)) by {
        reveal_strlit("h below min ");
        reveal_with_fuel(avoids_from, 13);
        lemma_literal("h below min "@, c);
    }
    assert(avoids("h"@, c)) by {
        reveal_strlit("h");
        reveal_with_fuel(avoids_from, 2);
        lemma_literal("h"@, c);
    }
    let least = cfg.min_pool_age_hours;
    lemma_two_numbers("Pool age "@, m.age_hours, "h >= min "@, least, "h"@, 1, c);
    lemma_two_numbers("Pool age "@, m.age_hours, "h below min "@, least, "h"@, 1, c);
    let v = age_check(m, cfg);
    if v.len() > 0 {
        assert(v =~= seq![v[0]]);
        lemma_single_reason(v[0], name, c);
    }
}

proof fn lemma_honeypot_reasons(m: PoolMetrics, cfg: ScreeningConfig, name: Seq<char>, c: char)
    requires
        begins_g(name, c),
    ensures
        unnamed(honeypot_check(m, cfg), name),
{
    assert(avoids("Honeypot check passed: simulated buy-then-sell round trip lost "@, c)) by {
        reveal_strlit("Honeypot check passed: simulated buy-then-sell round trip lost ");
        reveal_with_fuel(avoids_from, 64);
        lemma_literal("Honeypot check passed: simulated buy-then-sell round trip lost "@, c);
    }
    assert(avoids("% (<= "@, c)) by {
        reveal_strlit("% (<= ");
        reveal_with_fuel(avoids_from, 7);
        lemma_literal("% (<= "@, c);
    }
    assert(avoids("% max)"@, c)) by {
        reveal_strlit("% max)");
        reveal_with_fuel(avoids_from, 7);
        lemma_literal("% max)"@, c);
    }
    assert(avoids("Simulated round-trip loss "@, c)) by {
        reveal_strlit("Simulated round-trip loss ");
        reveal_with_fuel(avoids_from, 27);
        lemma_literal("Simulated round-trip loss "@, c);
    }
    assert(avoids("% exceeds max "@, c)) by {
        reveal_strlit("% exceeds max ");
        reveal_with_fuel(avoids_from, 15);
        lemma_literal("% exceeds max "@, c);
    }
    assert(avoids("% — likely a hidden sell tax"@, c)) by {
        reveal_strlit("% — likely a hidden sell tax");
        reveal_with_fuel(avoids_from, 29);
        lemma_literal("% — likely a hidden sell tax"@, c);
    }
    assert(avoids("Honeypot check returned sellable but no loss figure — treating as inconclusive"@, c)) by {
        reveal_strlit("Honeypot check returned sellable but no loss figure — treating as inconclusive");
        reveal_with_fuel(avoids_from, 79);
        lemma_literal("Honeypot check returned sellable but no loss figure — treating as inconclusive"@, c);
    }
    assert(avoids("Honeypot check FAILED: simulated sell reverted — token likely can't be sold"@, c)) by {
        reveal_strlit("Honeypot check FAILED: simulated sell reverted — token likely can't be sold");
        reveal_with_fuel(avoids_from, 76);
        lemma_literal("Honeypot check FAILED: simulated sell reverted — token likely can't be sold"@, c);
    }
    assert(avoids("Honeypot check inconclusive (pool unpriceable or quoter call failed)"@, c)) by {
        reveal_strlit("Honeypot check inconclusive (pool unpriceable or quoter call failed)");
        reveal_with_fuel(avoids_from, 69);
        lemma_literal("Honeypot check inconclusive (pool unpriceable or quoter call failed)"@, c);
    }
    match m.honeypot_round_trip_loss_percent {
        Some(loss) => {
            lemma_two_numbers(
                "Honeypot check passed: simulated buy-then-sell round trip lost "@,
                loss,
                "% (<= "@,
                cfg.max_honeypot_loss_percent,
                "% max)"@,
                1,
                c,
            );
            lemma_two_numbers(
                "Simulated round-trip loss "@,
                loss,
                "% exceeds max "@,
                cfg.max_honeypot_loss_percent,
                "% — likely a hidden sell tax"@,
                1,
                c,
            );
        },
        None => {},
    }
    let v = honeypot_check(m, cfg);
    if v.len() > 0 {
        assert(v =~= seq![v[0]]);
        lemma_single_reason(v[0], name, c);
    }
}

/// A name without spaces that neither piece holds is not held where a space parts
/// them, nor behind a text that ends in one.
proof fn lemma_not_named_between(
    head: Seq<char>,
    first: Seq<char>,
    second: Seq<char>,
    name: Seq<char>,
)
    requires
        name.len() > 0,
        forall|i: int| 0 <= i < name.len() ==> #[trigger] name[i] != ' ',
        head.len() > 0,
        head.last() == ' ',
        !contains_text(head, name),
        !contains_text(first, name),
        !contains_text(second, name),
    ensures
        !contains_text(head + first + " "@ + second, name),
{
    reveal_strlit(" ");
    let s = head + first + " "@ + second;
    if contains_text(s, name) {
        let i = choose|i: int| holds_at(s, name, i);
        let n = name.len() as int;
        let h = head.len() as int;
        let f = h + first.len();
        assert(s[h - 1] == ' ');
        assert(s[f] == ' ');
        assert forall|k: int| i <= k < i + n implies s[k] == name[k - i] && s[k] != ' ' by {
            assert(name[k - i] != ' ');
        }
        if i + n <= h {
            assert(s.subrange(i, i + n) =~= head.subrange(i, i + n));
            assert(holds_at(head, name, i));
        } else if i >= h && i + n <= f {
            assert(s.subrange(i, i + n) =~= first.subrange(i - h, i - h + n));
            assert(holds_at(first, name, i - h));
        } else if i > f {
            assert(s.subrange(i, i + n) =~= second.subrange(i - f - 1, i - f - 1 + n));
            assert(holds_at(second, name, i - f - 1));
        } else if i < h {
            assert(s[h - 1] != ' ');
        } else {
            assert(s[f] != ' ');
        }
    }
}

/// The two symbols stand between spaces, which no name has.
proof fn lemma_verified_reasons(m: PoolMetrics, cfg: ScreeningConfig, name: Seq<char>, c: char)
    requires
        begins_g(name, c),
        !contains_text(m.token0_symbol@, name),
        !contains_text(m.token1_symbol@, name),
    ensures
        unnamed(verified_check(m, cfg), name),
{
    assert(avoids("Both token contracts verified on Blockscout"@, c)) by {
        reveal_strlit("Both token contracts verified on Blockscout");
        reveal_with_fuel(avoids_from, 44);
        lemma_literal("Both token contracts verified on Blockscout"@, c);
    }
    assert(avoids("Unverified token contract(s): "@, c)) by {
        reveal_strlit("Unverified token contract(s): ");
        reveal_with_fuel(avoids_from, 31);
        lemma_literal("Unverified token contract(s): "@, c);
    }
    reveal_strlit("Unverified token contract(s): ");
    reveal_strlit(" ");
    reveal_strlit("");
    let v = verified_check(m, cfg);
    if m.token0_verified == Some(true) && m.token1_verified == Some(true) {
        lemma_not_named("Both token contracts verified on Blockscout"@, name, c);
    } else if v.len() > 0 {
        let head = "Unverified token contract(s): "@;
        let first = unverified_symbol(m.token0_verified, m.token0_symbol@);
        let second = unverified_symbol(m.token1_verified, m.token1_symbol@);
        lemma_not_named(head, name, c);
        lemma_not_named_between(head, first, second, name);
        assert(v =~= seq![v[0]]);
    }
}

proof fn lemma_goplus_honeypot_reasons(m: PoolMetrics, cfg: ScreeningConfig, name: Seq<char>, c: char)
    requires
        begins_g(name, c),
        c == 'e',
    ensures
        unnamed(goplus_honeypot_check(m, cfg), name),
{
    assert(avoids("GoPlus flags this token as a honeypot"@, c)) by {
        reveal_strlit("GoPlus flags this token as a honeypot");
        reveal_with_fuel(avoids_from, 38);
        lemma_literal("GoPlus flags this token as a honeypot"@, c);
    }
    let v = goplus_honeypot_check(m, cfg);
    if v.len() > 0 {
        assert(v =~= seq![v[0]]);
        lemma_single_reason(v[0], name, c);
    }
}

proof fn lemma_unknown(label: Seq<char>, cfg: ScreeningConfig, name: Seq<char>, c: char)
    requires
        begins_g(name, c),
        c == 'e',
        avoids(label, c),
    ensures
        unnamed(unknown(label, cfg), name),
{
    assert(avoids(" unknown (GoPlus has no data on this token yet) — failing since require_goplus_data=true"@, c)) by {
        reveal_strlit(" unknown (GoPlus has no data on this token yet) — failing since require_goplus_data=true");
        reveal_with_fuel(avoids_from, 89);
        lemma_literal(" unknown (GoPlus has no data on this token yet) — failing since require_goplus_data=true"@, c);
    }
    assert(avoids(" unknown (GoPlus has no data yet) — skipped, not counted against this pool"@, c)) by {
        reveal_strlit(" unknown (GoPlus has no data yet) — skipped, not counted against this pool");
        reveal_with_fuel(avoids_from, 75);
        lemma_literal(" unknown (GoPlus has no data yet) — skipped, not counted against this pool"@, c);
    }
    lemma_avoids_append(
        label,
        " unknown (GoPlus has no data on this token yet) — failing since require_goplus_data=true"@,
        c,
    );
    lemma_avoids_append(
        label,
        " unknown (GoPlus has no data yet) — skipped, not counted against this pool"@,
        c,
    );
    let v = unknown(label, cfg);
    assert(v =~= seq![v[0]]);
    lemma_single_reason(v[0], name, c);
}

/// A value, in words, against a threshold.
proof fn lemma_compared(
    label: Seq<char>,
    v: Double,
    d: nat,
    unit: Seq<char>,
    word: Seq<char>,
    threshold: Double,
    tail: Seq<char>,
    c: char,
)
    requires
        avoids(label, c),
        avoids(unit, c),
        avoids(word, c),
        avoids(tail, c),
    ensures
        avoids(label + " "@ + fixed(v, d) + unit + word + fixed(threshold, d) + unit, c),
        avoids(label + " "@ + fixed(v, d) + unit + word + fixed(threshold, d) + unit + tail, c),
{
    assert(avoids(" "@, c)) by {
        reveal_strlit(" ");
        reveal_with_fuel(avoids_from, 2);
        lemma_literal(" "@, c);
    }
    lemma_number(v, d, c);
    lemma_number(threshold, d, c);
    let s1 = label + " "@;
    let s2 = s1 + fixed(v, d);
    let s3 = s2 + unit;
    let s4 = s3 + word;
    let s5 = s4 + fixed(threshold, d);
    let s6 = s5 + unit;
    lemma_avoids_append(label, " "@, c);
    lemma_avoids_append(s1, fixed(v, d), c);
    lemma_avoids_append(s2, unit, c);
    lemma_avoids_append(s3, word, c);
    lemma_avoids_append(s4, fixed(threshold, d), c);
    lemma_avoids_append(s5, unit, c);
    lemma_avoids_append(s6, tail, c);
}

proof fn lemma_threshold_reasons(
    value: Option<Double>,
    threshold: Double,
    floor: bool,
    label: Seq<char>,
    d: nat,
    unit: Seq<char>,
    tail: Seq<char>,
    cfg: ScreeningConfig,
    name: Seq<char>,
    c: char,
)
    requires
        begins_g(name, c),
        c == 'e',
        avoids(label, c),
        avoids(unit, c),
        avoids(tail, c),
    ensures
        unnamed(threshold_check(value, threshold, floor, label, d, unit, tail, cfg), name),
{
    assert(avoids(" >= min "@, c)) by {
        reveal_strlit(" >= min ");
        reveal_with_fuel(avoids_from, 9);
        lemma_literal(" >= min "@, c);
    }
    assert(avoids(" below min "@, c)) by {
        reveal_strlit(" below min ");
        reveal_with_fuel(avoids_from, 12);
        lemma_literal(" below min "@, c);
    }
    assert(avoids(" within max "@, c)) by {
        reveal_strlit(" within max ");
        reveal_with_fuel(avoids_from, 13);
        lemma_literal(" within max "@, c);
    }
    assert(avoids(" exceeds max "@, c)) by {
        reveal_strlit(" exceeds max ");
        reveal_with_fuel(avoids_from, 14);
        lemma_literal(" exceeds max "@, c);
    }
    let s = threshold_check(value, threshold, floor, label, d, unit, tail, cfg);
    match value {
        Some(v) => {
            lemma_compared(label, v, d, unit, " >= min "@, threshold, tail, c);
            lemma_compared(label, v, d, unit, " below min "@, threshold, tail, c);
            lemma_compared(label, v, d, unit, " within max "@, threshold, tail, c);
            lemma_compared(label, v, d, unit, " exceeds max "@, threshold, tail, c);
            assert(s =~= seq![s[0]]);
            lemma_single_reason(s[0], name, c);
        },
        None => {
            lemma_unknown(label, cfg, name, c);
        },
    }
}

proof fn lemma_holder_reasons(m: PoolMetrics, cfg: ScreeningConfig, name: Seq<char>, c: char)
    requires
        begins_g(name, c),
        c == 'e',
    ensures
        unnamed(holder_check(m, cfg), name),
{
    assert(avoids("Holder count"@, c)) by {
        reveal_strlit("Holder count");
        reveal_with_fuel(avoids_from, 13);
        lemma_literal("Holder count"@, c);
    }
    assert(avoids(""@, c)) by {
        reveal_strlit("");
        reveal_with_fuel(avoids_from, 1);
        lemma_literal(""@, c);
    }
    lemma_threshold_reasons(
        count_of(m.holder_count),
        of_nat(cfg.min_holder_count as nat),
        true,
        "Holder count"@,
        0,
        ""@,
        ""@,
        cfg,
        name,
        c,
    );
}

proof fn lemma_traders_reasons(m: PoolMetrics, cfg: ScreeningConfig, name: Seq<char>, c: char)
    requires
        begins_g(name, c),
        c == 'e',
    ensures
        unnamed(traders_check(m, cfg), name),
{
    assert(avoids("Unique traders (24h)"@, c)) by {
        reveal_strlit("Unique traders (24h)");
        reveal_with_fuel(avoids_from, 21);
        lemma_literal("Unique traders (24h)"@, c);
    }
    assert(avoids(""@, c)) by {
        reveal_strlit("");
        reveal_with_fuel(avoids_from, 1);
        lemma_literal(""@, c);
    }
    lemma_threshold_reasons(
        count_of(m.unique_traders_24h),
        of_nat(cfg.min_unique_traders_24h as nat),
        true,
        "Unique traders (24h)"@,
        0,
        ""@,
        ""@,
        cfg,
        name,
        c,
    );
}

proof fn lemma_top10_reasons(m: PoolMetrics, cfg: ScreeningConfig, name: Seq<char>, c: char)
    requires
        begins_g(name, c),
        c == 'e',
    ensures
        unnamed(top10_check(m, cfg), name),
{
    assert(avoids("Top-10 holder concentration"@, c)) by {
        reveal_strlit("Top-10 holder concentration");
        reveal_with_fuel(avoids_from, 28);
        lemma_literal("Top-10 holder concentration"@, c);
    }
    assert(avoids("%"@, c)) by {
        reveal_strlit("%");
        reveal_with_fuel(avoids_from, 2);
        lemma_literal("%"@, c);
    }
    assert(avoids(""@, c)) by {
        reveal_strlit("");
        reveal_with_fuel(avoids_from, 1);
        lemma_literal(""@, c);
    }
    lemma_threshold_reasons(
        m.top10_holder_pct,
        cfg.max_top10_holder_pct,
        false,
        "Top-10 holder concentration"@,
        1,
        "%"@,
        ""@,
        cfg,
        name,
        c,
    );
}

proof fn lemma_dev_reasons(m: PoolMetrics, cfg: ScreeningConfig, name: Seq<char>, c: char)
    requires
        begins_g(name, c),
        c == 'e',
    ensures
        unnamed(dev_check(m, cfg), name),
{
    assert(avoids("Dev/creator holdings"@, c)) by {
        reveal_strlit("Dev/creator holdings");
        reveal_with_fuel(avoids_from, 21);
        lemma_literal("Dev/creator holdings"@, c);
    }
    assert(avoids("%"@, c)) by {
        reveal_strlit("%");
        reveal_with_fuel(avoids_from, 2);
        lemma_literal("%"@, c);
    }
    assert(avoids(""@, c)) by {
        reveal_strlit("");
        reveal_with_fuel(avoids_from, 1);
        lemma_literal(""@, c);
    }
    lemma_threshold_reasons(
        m.dev_holding_pct,
        cfg.max_dev_holding_pct,
        false,
        "Dev/creator holdings"@,
        1,
        "%"@,
        ""@,
        cfg,
        name,
        c,
    );
}

proof fn lemma_buy_tax_reasons(m: PoolMetrics, cfg: ScreeningConfig, name: Seq<char>, c: char)
    requires
        begins_g(name, c),
        c == 'e',
    ensures
        unnamed(buy_tax_check(m, cfg), name),
{
    assert(avoids("Buy tax"@, c)) by {
        reveal_strlit("Buy tax");
        reveal_with_fuel(avoids_from, 8);
        lemma_literal("Buy tax"@, c);
    }
    assert(avoids("%"@, c)) by {
        reveal_strlit("%");
        reveal_with_fuel(avoids_from, 2);
        lemma_literal("%"@, c);
    }
    assert(avoids(""@, c)) by {
        reveal_strlit("");
        reveal_with_fuel(avoids_from, 1);
        lemma_literal(""@, c);
    }
    lemma_threshold_reasons(
        m.buy_tax_percent,
        cfg.max_buy_tax_percent,
        false,
        "Buy tax"@,
        1,
        "%"@,
        ""@,
        cfg,
        name,
        c,
    );
}

proof fn lemma_sell_tax_reasons(m: PoolMetrics, cfg: ScreeningConfig, name: Seq<char>, c: char)
    requires
        begins_g(name, c),
        c == 'e',
    ensures
        unnamed(sell_tax_check(m, cfg), name),
{
    assert(avoids("Sell tax"@, c)) by {
        reveal_strlit("Sell tax");
        reveal_with_fuel(avoids_from, 9);
        lemma_literal("Sell tax"@, c);
    }
    assert(avoids("%"@, c)) by {
        reveal_strlit("%");
        reveal_with_fuel(avoids_from, 2);
        lemma_literal("%"@, c);
    }
    assert(avoids(""@, c)) by {
        reveal_strlit("");
        reveal_with_fuel(avoids_from, 1);
        lemma_literal(""@, c);
    }
    lemma_threshold_reasons(
        m.sell_tax_percent,
        cfg.max_sell_tax_percent,
        false,
        "Sell tax"@,
        1,
        "%"@,
        ""@,
        cfg,
        name,
        c,
    );
}

proof fn lemma_lp_locked_reasons(m: PoolMetrics, cfg: ScreeningConfig, name: Seq<char>, c: char)
    requires
        begins_g(name, c),
        c == 'e',
    ensures
        unnamed(lp_locked_check(m, cfg), name),
{
    assert(avoids("LP locked"@, c)) by {
        reveal_strlit("LP locked");
        reveal_with_fuel(avoids_from, 10);
        lemma_literal("LP locked"@, c);
    }
    assert(avoids("%"@, c)) by {
        reveal_strlit("%");
        reveal_with_fuel(avoids_from, 2);
        lemma_literal("%"@, c);
    }
    assert(avoids(""@, c)) by {
        reveal_strlit("");
        reveal_with_fuel(avoids_from, 1);
        lemma_literal(""@, c);
    }
    assert(avoids(" — GoPlus lock data is often unavailable for Uniswap v3 NFT positions, so this may reflect missing data rather than genuinely unlocked liquidity"@, c)) by {
        reveal_strlit(" — GoPlus lock data is often unavailable for Uniswap v3 NFT positions, so this may reflect missing data rather than genuinely unlocked liquidity");
        reveal_with_fuel(avoids_from, 61);
        assert(avoids_from(" — GoPlus lock data is often unavailable for Uniswap v3 NFT positions, so this may reflect missing data rather than genuinely unlocked liquidity"@, c, 120));
        assert(avoids_from(" — GoPlus lock data is often unavailable for Uniswap v3 NFT positions, so this may reflect missing data rather than genuinely unlocked liquidity"@, c, 60));
        lemma_literal(" — GoPlus lock data is often unavailable for Uniswap v3 NFT positions, so this may reflect missing data rather than genuinely unlocked liquidity"@, c);
    }
    lemma_threshold_reasons(
        m.lp_locked_pct,
        cfg.min_lp_locked_pct,
        true,
        "LP locked"@,
        1,
        "%"@,
        " — GoPlus lock data is often unavailable for Uniswap v3 NFT positions, so this may reflect missing data rather than genuinely unlocked liquidity"@,
        cfg,
        name,
        c,
    );
}

proof fn lemma_mintable_reasons(m: PoolMetrics, cfg: ScreeningConfig, name: Seq<char>, c: char)
    requires
        begins_g(name, c),
        c == 'e',
    ensures
        unnamed(mintable_check(m, cfg), name),
{
    assert(avoids("No privileged mint function (GoPlus)"@, c)) by {
        reveal_strlit("No privileged mint function (GoPlus)");
        reveal_with_fuel(avoids_from, 37);
        lemma_literal("No privileged mint function (GoPlus)"@, c);
    }
    assert(avoids("Contract has a privileged mint function — supply could be inflated at will"@, c)) by {
        reveal_strlit("Contract has a privileged mint function — supply could be inflated at will");
        reveal_with_fuel(avoids_from, 75);
        lemma_literal("Contract has a privileged mint function — supply could be inflated at will"@, c);
    }
    assert(avoids("Mintability"@, c)) by {
        reveal_strlit("Mintability");
        reveal_with_fuel(avoids_from, 12);
        lemma_literal("Mintability"@, c);
    }
    lemma_unknown("Mintability"@, cfg, name, c);
    let v = mintable_check(m, cfg);
    if v.len() > 0 && v != unknown("Mintability"@, cfg) {
        assert(v =~= seq![v[0]]);
        lemma_single_reason(v[0], name, c);
    }
}

proof fn lemma_ownership_reasons(m: PoolMetrics, cfg: ScreeningConfig, name: Seq<char>, c: char)
    requires
        begins_g(name, c),
        c == 'e',
    ensures
        unnamed(ownership_check(m, cfg), name),
{
    assert(avoids("Ownership renounced / no privileged owner (GoPlus)"@, c)) by {
        reveal_strlit("Ownership renounced / no privileged owner (GoPlus)");
        reveal_with_fuel(avoids_from, 51);
        lemma_literal("Ownership renounced / no privileged owner (GoPlus)"@, c);
    }
    assert(avoids("Ownership NOT renounced — a privileged owner still exists (closest EVM equivalent to an unrevoked mint/freeze authority)"@, c)) by {
        reveal_strlit("Ownership NOT renounced — a privileged owner still exists (closest EVM equivalent to an unrevoked mint/freeze authority)");
        reveal_with_fuel(avoids_from, 61);
        assert(avoids_from("Ownership NOT renounced — a privileged owner still exists (closest EVM equivalent to an unrevoked mint/freeze authority)"@, c, 120));
        assert(avoids_from("Ownership NOT renounced — a privileged owner still exists (closest EVM equivalent to an unrevoked mint/freeze authority)"@, c, 60));
        lemma_literal("Ownership NOT renounced — a privileged owner still exists (closest EVM equivalent to an unrevoked mint/freeze authority)"@, c);
    }
    assert(avoids("Ownership-renounced status"@, c)) by {
        reveal_strlit("Ownership-renounced status");
        reveal_with_fuel(avoids_from, 27);
        lemma_literal("Ownership-renounced status"@, c);
    }
    lemma_unknown("Ownership-renounced status"@, cfg, name, c);
    let v = ownership_check(m, cfg);
    if v.len() > 0 && v != unknown("Ownership-renounced status"@, cfg) {
        assert(v =~= seq![v[0]]);
        lemma_single_reason(v[0], name, c);
    }
}

proof fn lemma_blacklist_reasons(m: PoolMetrics, cfg: ScreeningConfig, name: Seq<char>, c: char)
    requires
        begins_g(name, c),
        c == 'e',
    ensures
        unnamed(blacklist_check(m, cfg), name),
{
    assert(avoids("No blacklist/pause function found (GoPlus)"@, c)) by {
        reveal_strlit("No blacklist/pause function found (GoPlus)");
        reveal_with_fuel(avoids_from, 43);
        lemma_literal("No blacklist/pause function found (GoPlus)"@, c);
    }
    assert(avoids("Contract can blacklist addresses or pause transfers — closest EVM equivalent to a freeze authority that hasn't been revoked"@, c)) by {
        reveal_strlit("Contract can blacklist addresses or pause transfers — closest EVM equivalent to a freeze authority that hasn't been revoked");
        reveal_with_fuel(avoids_from, 61);
        assert(avoids_from("Contract can blacklist addresses or pause transfers — closest EVM equivalent to a freeze authority that hasn't been revoked"@, c, 120));
        assert(avoids_from("Contract can blacklist addresses or pause transfers — closest EVM equivalent to a freeze authority that hasn't been revoked"@, c, 60));
        lemma_literal("Contract can blacklist addresses or pause transfers — closest EVM equivalent to a freeze authority that hasn't been revoked"@, c);
    }
    assert(avoids("Blacklist/pause capability"@, c)) by {
        reveal_strlit("Blacklist/pause capability");
        reveal_with_fuel(avoids_from, 27);
        lemma_literal("Blacklist/pause capability"@, c);
    }
    lemma_unknown("Blacklist/pause capability"@, cfg, name, c);
    let v = blacklist_check(m, cfg);
    if v.len() > 0 && v != unknown("Blacklist/pause capability"@, cfg) {
        assert(v =~= seq![v[0]]);
        lemma_single_reason(v[0], name, c);
    }
}

proof fn lemma_listed(s: Seq<char>, x: Double, word: Seq<char>, c: char)
    requires
        avoids(s, c),
        avoids(word, c),
    ensures
        avoids(s + fixed(x, 0) + word, c),
{
    lemma_number(x, 0, c);
    lemma_avoids_append(s, fixed(x, 0), c);
    lemma_avoids_append(s + fixed(x, 0), word, c);
}

proof fn lemma_gt_score_reasons(m: PoolMetrics, cfg: ScreeningConfig, name: Seq<char>, c: char)
    requires
        begins_g(name, c),
        c == 'o',
        cfg.hide_goplus,
    ensures
        unnamed(gt_score_check(m, cfg), name),
{
    assert(avoids("GeckoTerminal gt_score "@, c)) by {
        reveal_strlit("GeckoTerminal gt_score ");
        reveal_with_fuel(avoids_from, 24);
        lemma_literal("GeckoTerminal gt_score "@, c);
    }
    assert(avoids(" >= min "@, c)) by {
        reveal_strlit(" >= min ");
        reveal_with_fuel(avoids_from, 9);
        lemma_literal(" >= min "@, c);
    }
    assert(avoids(" (components: pool="@, c)) by {
        reveal_strlit(" (components: pool=");
        reveal_with_fuel(avoids_from, 20);
        lemma_literal(" (components: pool="@, c);
    }
    assert(avoids(" tx="@, c)) by {
        reveal_strlit(" tx=");
        reveal_with_fuel(avoids_from, 5);
        lemma_literal(" tx="@, c);
    }
    assert(avoids(" creation="@, c)) by {
        reveal_strlit(" creation=");
        reveal_with_fuel(avoids_from, 11);
        lemma_literal(" creation="@, c);
    }
    assert(avoids(" info="@, c)) by {
        reveal_strlit(" info=");
        reveal_with_fuel(avoids_from, 7);
        lemma_literal(" info="@, c);
    }
    assert(avoids(" holders="@, c)) by {
        reveal_strlit(" holders=");
        reveal_with_fuel(avoids_from, 10);
        lemma_literal(" holders="@, c);
    }
    assert(avoids(")"@, c)) by {
        reveal_strlit(")");
        reveal_with_fuel(avoids_from, 2);
        lemma_literal(")"@, c);
    }
    assert(avoids(" below min "@, c)) by {
        reveal_strlit(" below min ");
        reveal_with_fuel(avoids_from, 12);
        lemma_literal(" below min "@, c);
    }
    assert(avoids(" — weighted security score too low"@, c)) by {
        reveal_strlit(" — weighted security score too low");
        reveal_with_fuel(avoids_from, 35);
        lemma_literal(" — weighted security score too low"@, c);
    }
    assert(avoids("GeckoTerminal gt_score unavailable — skipping"@, c)) by {
        reveal_strlit("GeckoTerminal gt_score unavailable — skipping");
        reveal_with_fuel(avoids_from, 46);
        lemma_literal("GeckoTerminal gt_score unavailable — skipping"@, c);
    }
    match m.gt_score {
        Some(score) => {
            let least = cfg.min_gt_score;
            let words = seq![" tx="@, " creation="@, " info="@, " holders="@, ")"@];
            let parts = seq![
                component(m.gt_score_pool),
                component(m.gt_score_transaction),
                component(m.gt_score_creation),
                component(m.gt_score_info),
                component(m.gt_score_holders),
            ];
            let s0 = two_numbers(
                "GeckoTerminal gt_score "@,
                score,
                " >= min "@,
                least,
                " (components: pool="@,
                1,
            );
            lemma_two_numbers(
                "GeckoTerminal gt_score "@,
                score,
                " >= min "@,
                least,
                " (components: pool="@,
                1,
                c,
            );
            lemma_listed(s0, parts[0], words[0], c);
            let s1 = s0 + fixed(parts[0], 0) + words[0];
            lemma_listed(s1, parts[1], words[1], c);
            let s2 = s1 + fixed(parts[1], 0) + words[1];
            lemma_listed(s2, parts[2], words[2], c);
            let s3 = s2 + fixed(parts[2], 0) + words[2];
            lemma_listed(s3, parts[3], words[3], c);
            let s4 = s3 + fixed(parts[3], 0) + words[3];
            lemma_listed(s4, parts[4], words[4], c);
            lemma_two_numbers(
                "GeckoTerminal gt_score "@,
                score,
                " below min "@,
                least,
                " — weighted security score too low"@,
                1,
                c,
            );
        },
        None => {},
    }
    let v = gt_score_check(m, cfg);
    if v.len() > 0 {
        assert(v =~= seq![v[0]]);
        lemma_single_reason(v[0], name, c);
    }
}

proof fn lemma_gt_verified_reasons(m: PoolMetrics, cfg: ScreeningConfig, name: Seq<char>, c: char)
    requires
        begins_g(name, c),
        c == 'o',
    ensures
        unnamed(gt_verified_check(m, cfg), name),
{
    assert(avoids("GeckoTerminal verified ✓"@, c)) by {
        reveal_strlit("GeckoTerminal verified ✓");
        reveal_with_fuel(avoids_from, 25);
        lemma_literal("GeckoTerminal verified ✓"@, c);
    }
    assert(avoids("GeckoTerminal NOT verified — project hasn't submitted verified info"@, c)) by {
        reveal_strlit("GeckoTerminal NOT verified — project hasn't submitted verified info");
        reveal_with_fuel(avoids_from, 68);
        lemma_literal("GeckoTerminal NOT verified — project hasn't submitted verified info"@, c);
    }
    assert(avoids("GeckoTerminal verification status unknown — skipped"@, c)) by {
        reveal_strlit("GeckoTerminal verification status unknown — skipped");
        reveal_with_fuel(avoids_from, 52);
        lemma_literal("GeckoTerminal verification status unknown — skipped"@, c);
    }
    let v = gt_verified_check(m, cfg);
    if v.len() > 0 {
        assert(v =~= seq![v[0]]);
        lemma_single_reason(v[0], name, c);
    }
}

proof fn lemma_gecko_honeypot_reasons(m: PoolMetrics, cfg: ScreeningConfig, name: Seq<char>, c: char)
    requires
        begins_g(name, c),
        c == 'o',
    ensures
        unnamed(gecko_honeypot_check(m), name),
{
    assert(avoids("GeckoTerminal flags this token as a honeypot"@, c)) by {
        reveal_strlit("GeckoTerminal flags this token as a honeypot");
        reveal_with_fuel(avoids_from, 45);
        lemma_literal("GeckoTerminal flags this token as a honeypot"@, c);
    }
    let v = gecko_honeypot_check(m);
    if v.len() > 0 {
        assert(v =~= seq![v[0]]);
        lemma_single_reason(v[0], name, c);
    }
}

proof fn lemma_goplus_reasons(m: PoolMetrics, cfg: ScreeningConfig, name: Seq<char>)
    requires
        begins_g(name, 'e'),
    ensures
        unnamed(goplus_checks(m, cfg), name),
{
    let c = 'e';
    let s1 = holder_check(m, cfg);
    let s2 = s1 + traders_check(m, cfg);
    let s3 = s2 + top10_check(m, cfg);
    let s4 = s3 + dev_check(m, cfg);
    let s5 = s4 + buy_tax_check(m, cfg);
    let s6 = s5 + sell_tax_check(m, cfg);
    let s7 = s6 + mintable_check(m, cfg);
    let s8 = s7 + ownership_check(m, cfg);
    let s9 = s8 + blacklist_check(m, cfg);
    lemma_holder_reasons(m, cfg, name, c);
    lemma_traders_reasons(m, cfg, name, c);
    lemma_top10_reasons(m, cfg, name, c);
    lemma_dev_reasons(m, cfg, name, c);
    lemma_buy_tax_reasons(m, cfg, name, c);
    lemma_sell_tax_reasons(m, cfg, name, c);
    lemma_mintable_reasons(m, cfg, name, c);
    lemma_ownership_reasons(m, cfg, name, c);
    lemma_blacklist_reasons(m, cfg, name, c);
    lemma_lp_locked_reasons(m, cfg, name, c);
    lemma_unnamed_append(s1, traders_check(m, cfg), name);
    lemma_unnamed_append(s2, top10_check(m, cfg), name);
    lemma_unnamed_append(s3, dev_check(m, cfg), name);
    lemma_unnamed_append(s4, buy_tax_check(m, cfg), name);
    lemma_unnamed_append(s5, sell_tax_check(m, cfg), name);
    lemma_unnamed_append(s6, mintable_check(m, cfg), name);
    lemma_unnamed_append(s7, ownership_check(m, cfg), name);
    lemma_unnamed_append(s8, blacklist_check(m, cfg), name);
    lemma_unnamed_append(s9, lp_locked_check(m, cfg), name);
}

/// What is said before the services' own checks names none of them.
proof fn lemma_all_reasons(m: PoolMetrics, cfg: ScreeningConfig, name: Seq<char>, c: char)
    requires
        begins_g(name, c),
        !contains_text(m.token0_symbol@, name),
        !contains_text(m.token1_symbol@, name),
        unnamed(goplus_honeypot_check(m, cfg), name),
        unnamed(gecko_checks(m, cfg), name),
        unnamed(goplus_checks(m, cfg), name),
    ensures
        forall|i: int|
            0 <= i < reasons_of(checks(m, cfg)).len() ==> !contains_text(
                #[trigger] reasons_of(checks(m, cfg))[i],
                name,
            ),
{
    let s1 = tvl_check(m, cfg);
    let s2 = s1 + volume_check(m, cfg);
    let s3 = s2 + apr_check(m, cfg);
    let s4 = s3 + age_check(m, cfg);
    let s5 = s4 + verified_check(m, cfg);
    let s6 = s5 + honeypot_check(m, cfg);
    let s7 = s6 + goplus_honeypot_check(m, cfg);
    let s8 = s7 + gecko_checks(m, cfg);
    lemma_tvl_reasons(m, cfg, name, c);
    lemma_volume_reasons(m, cfg, name, c);
    lemma_apr_reasons(m, cfg, name, c);
    lemma_age_reasons(m, cfg, name, c);
    lemma_verified_reasons(m, cfg, name, c);
    lemma_honeypot_reasons(m, cfg, name, c);
    lemma_unnamed_append(s1, volume_check(m, cfg), name);
    lemma_unnamed_append(s2, apr_check(m, cfg), name);
    lemma_unnamed_append(s3, age_check(m, cfg), name);
    lemma_unnamed_append(s4, verified_check(m, cfg), name);
    lemma_unnamed_append(s5, honeypot_check(m, cfg), name);
    lemma_unnamed_append(s6, goplus_honeypot_check(m, cfg), name);
    lemma_unnamed_append(s7, gecko_checks(m, cfg), name);
    lemma_unnamed_append(s8, goplus_checks(m, cfg), name);
    let all = checks(m, cfg);
    assert forall|i: int| 0 <= i < reasons_of(all).len() implies !contains_text(
        #[trigger] reasons_of(all)[i],
        name,
    ) by {
        assert(reasons_of(all)[i] == all[i].reason);
    }
}

/// Where GeckoTerminal is hidden, no reason names it, unless a token's symbol does.
pub proof fn law_hidden_gecko_is_not_named(m: PoolMetrics, cfg: ScreeningConfig)
    requires
        cfg.hide_geckoterminal,
        !contains_text(m.token0_symbol@, "GeckoTerminal"@),
        !contains_text(m.token1_symbol@, "GeckoTerminal"@),
    ensures
        forall|i: int|
            0 <= i < reasons_of(checks(m, cfg)).len() ==> !contains_text(
                #[trigger] reasons_of(checks(m, cfg))[i],
                "GeckoTerminal"@,
            ),
{
    let name = "GeckoTerminal"@;
    reveal_strlit("GeckoTerminal");
    lemma_goplus_honeypot_reasons(m, cfg, name, 'e');
    lemma_goplus_reasons(m, cfg, name);
    lemma_all_reasons(m, cfg, name, 'e');
}

/// Where GoPlus is hidden, no reason names it, unless a token's symbol does.
pub proof fn law_hidden_goplus_is_not_named(m: PoolMetrics, cfg: ScreeningConfig)
    requires
        cfg.hide_goplus,
        !contains_text(m.token0_symbol@, "GoPlus"@),
        !contains_text(m.token1_symbol@, "GoPlus"@),
    ensures
        forall|i: int|
            0 <= i < reasons_of(checks(m, cfg)).len() ==> !contains_text(
                #[trigger] reasons_of(checks(m, cfg))[i],
                "GoPlus"@,
            ),
{
    let name = "GoPlus"@;
    reveal_strlit("GoPlus");
    lemma_gt_score_reasons(m, cfg, name, 'o');
    lemma_gt_verified_reasons(m, cfg, name, 'o');
    lemma_gecko_honeypot_reasons(m, cfg, name, 'o');
    lemma_unnamed_append(gt_score_check(m, cfg), gt_verified_check(m, cfg), name);
    lemma_unnamed_append(
        gt_score_check(m, cfg) + gt_verified_check(m, cfg),
        gecko_honeypot_check(m),
        name,
    );
    lemma_all_reasons(m, cfg, name, 'o');
}

} // verus!
