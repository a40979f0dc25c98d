//! Who may do what: incoming messages and button taps.
use vstd::prelude::*;
use vstd::string::*;

use crate::address::{address_text, parsed_address, Address};
use crate::config::AppConfig;
use crate::decimal::{decimal, parsed_u64};
use crate::telegram::alerts::{add_lp_data, close_data};
use crate::telegram::lookup::copy_data;
use crate::text::{begins_with, same, starts_with, strip_prefix, trim, trimmed};

verus! {

/// Whether a chat is the one that the bot obeys.
pub fn is_owner(cfg: &AppConfig, chat_id: i64) -> (r: bool)
    ensures
        r == (chat_id == cfg.telegram.chat_id),
{
    chat_id == cfg.telegram.chat_id
}

/// What a message asks for.
#[derive(Debug, Clone, Copy, PartialEq, Eq, Structural)]
pub enum Command {
    Positions,
    Check,
    ToggleScreening,
    Status,
    DexScreener,
    DextoolsTop10,
    UniswapTop10,
    /// Nothing, or it comes from somebody else.
    Ignore,
}

/// The command that a text without surrounding white space is.
pub open spec fn command_of(text: Seq<char>) -> Command {
    if begins_with(text, "/positions"@) || begins_with(text, "/pnl"@) {
        Command::Positions
    } else if begins_with(text, "/check"@) {
        Command::Check
    } else if text == "/toggle_screening"@ || text == "/toggle"@ {
        Command::ToggleScreening
    } else if text == "/screening_status"@ || text == "/status"@ {
        Command::Status
    } else if begins_with(text, "/dexscreener"@) {
        Command::DexScreener
    } else if text == "/dextools_top10"@ {
        Command::DextoolsTop10
    } else if text == "/uniswap_top10"@ {
        Command::UniswapTop10
    } else {
        Command::Ignore
    }
}

/// What a message asks for, given its chat and its text.
pub open spec fn message_route(owner: i64, chat_id: i64, text: Option<Seq<char>>) -> Command {
    match text {
        Some(t) => if chat_id == owner {
            command_of(trimmed(t))
        } else {
            Command::Ignore
        },
        None => Command::Ignore,
    }
}

fn command_in(text: &str) -> (r: Command)
    ensures
        r == command_of(text@),
{
    if starts_with(text, "/positions") || starts_with(text, "/pnl") {
        Command::Positions
    } else if starts_with(text, "/check") {
        Command::Check
    } else if same(text, "/toggle_screening") || same(text, "/toggle") {
        Command::ToggleScreening
    } else if same(text, "/screening_status") || same(text, "/status") {
        Command::Status
    } else if starts_with(text, "/dexscreener") {
        Command::DexScreener
    } else if same(text, "/dextools_top10") {
        Command::DextoolsTop10
    } else if same(text, "/uniswap_top10") {
        Command::UniswapTop10
    } else {
        Command::Ignore
    }
}

/// What a message asks for. What comes from another chat is ignored.
pub fn route_message(cfg: &AppConfig, chat_id: i64, text: &Option<String>) -> (r: Command)
    ensures
        r == message_route(
            cfg.telegram.chat_id,
            chat_id,
            match *text {
                Some(t) => Some(t@),
                None => None,
            },
        ),
{
    if !is_owner(cfg, chat_id) {
        return Command::Ignore;
    }
    match text {
        Some(t) => command_in(trim(t.as_str()).as_str()),
        None => Command::Ignore,
    }
}

/// What a button tap asks for.
#[derive(Debug)]
pub enum Tap {
    AddLp { pool_hex: String },
    Close { token_id: String },
    CopyAddress { address: String },
    /// Nothing, or it comes from somebody else.
    Ignore,
}

/// What a button tap asks for, with its text.
pub enum TapText {
    AddLp { pool_hex: Seq<char> },
    Close { token_id: Seq<char> },
    CopyAddress { address: Seq<char> },
    Ignore,
}

impl Tap {
    pub open spec fn told(self) -> TapText {
        match self {
            Tap::AddLp { pool_hex } => TapText::AddLp { pool_hex: pool_hex@ },
            Tap::Close { token_id } => TapText::Close { token_id: token_id@ },
            Tap::CopyAddress { address } => TapText::CopyAddress { address: address@ },
            Tap::Ignore => TapText::Ignore,
        }
    }
}

/// The chat that a tap comes from: its message's, or else its sender's own.
pub open spec fn tap_chat(message_chat: Option<i64>, sender: u64) -> i64 {
    match message_chat {
        Some(chat) => chat,
        None => sender as i64,
    }
}

/// What the data of a tapped button asks for.
pub open spec fn tap_of(data: Seq<char>) -> TapText {
    if begins_with(data, "addlp:"@) {
        TapText::AddLp { pool_hex: data.skip("addlp:"@.len() as int) }
    } else if begins_with(data, "closepos:"@) {
        TapText::Close { token_id: data.skip("closepos:"@.len() as int) }
    } else if begins_with(data, "copyaddr:"@) {
        TapText::CopyAddress { address: data.skip("copyaddr:"@.len() as int) }
    } else {
        TapText::Ignore
    }
}

/// What a button tap asks for, given where it comes from and its data.
pub open spec fn tap_route(
    owner: i64,
    message_chat: Option<i64>,
    sender: u64,
    data: Option<Seq<char>>,
) -> TapText {
    match data {
        Some(d) => if tap_chat(message_chat, sender) == owner {
            tap_of(d)
        } else {
            TapText::Ignore
        },
        None => TapText::Ignore,
    }
}

/// The chat that a tap comes from: its message's, or else its sender's own.
pub fn sender_chat(message_chat: Option<i64>, sender: u64) -> (r: i64)
    ensures
        r == tap_chat(message_chat, sender),
{
    match message_chat {
        Some(chat) => chat,
        None => sender as i64,
    }
}

/// What a button tap asks for. What comes from another chat is ignored.
pub fn route_callback(
    cfg: &AppConfig,
    message_chat: Option<i64>,
    sender: u64,
    data: &Option<String>,
) -> (r: Tap)
    ensures
        r.told() == tap_route(
            cfg.telegram.chat_id,
            message_chat,
            sender,
            match *data {
                Some(d) => Some(d@),
                None => None,
            },
        ),
{
    if !is_owner(cfg, sender_chat(message_chat, sender)) {
        return Tap::Ignore;
    }
    match data {
        Some(d) => match strip_prefix(d.as_str(), "addlp:") {
            Some(pool_hex) => Tap::AddLp { pool_hex },
            None => match strip_prefix(d.as_str(), "closepos:") {
                Some(token_id) => Tap::Close { token_id },
                None => match strip_prefix(d.as_str(), "copyaddr:") {
                    Some(address) => Tap::CopyAddress { address },
                    None => Tap::Ignore,
                },
            },
        },
        None => Tap::Ignore,
    }
}

/// Only the configured chat can make the bot do anything: a message or a tap from
/// anywhere else is ignored, whatever it says.
pub proof fn law_strangers_are_ignored(
    owner: i64,
    chat_id: i64,
    text: Option<Seq<char>>,
    message_chat: Option<i64>,
    sender: u64,
    data: Option<Seq<char>>,
)
    ensures
        chat_id != owner ==> message_route(owner, chat_id, text) == Command::Ignore,
        tap_chat(message_chat, sender) != owner ==> tap_route(owner, message_chat, sender, data)
            == TapText::Ignore,
{
}

/// The "Add LP" button of an alert leads back to the pool that the alert is about.
pub proof fn law_add_lp_button_leads_to_its_pool(pool: Address)
    ensures
        tap_of(add_lp_data(address_text(pool))) matches TapText::AddLp { pool_hex }
            && parsed_address(pool_hex) == Some(pool),
{
    let d = add_lp_data(address_text(pool));
    assert(d.skip("addlp:"@.len() as int) =~= address_text(pool));
    assert(d.subrange(0, "addlp:"@.len() as int) =~= "addlp:"@);
    crate::address::law_address_round_trip(pool);
}

/// The "Close position" button leads back to the position that it stands under.
pub proof fn law_close_button_leads_to_its_position(token_id: u64)
    ensures
        tap_of(close_data(token_id)) matches TapText::Close { token_id: text } && parsed_u64(text)
            == Some(token_id),
{
    let d = close_data(token_id);
    reveal_strlit("addlp:");
    reveal_strlit("closepos:");
    assert(d[0] == 'c');
    assert(!begins_with(d, "addlp:"@)) by {
        if begins_with(d, "addlp:"@) {
            assert(d.subrange(0, 6)[0] == "addlp:"@[0]);
        }
    }
    assert(d.skip("closepos:"@.len() as int) =~= decimal(token_id as nat));
    assert(d.subrange(0, "closepos:"@.len() as int) =~= "closepos:"@);
    crate::decimal::law_decimal_round_trip(token_id);
}

/// The "Copy" button of a pool leads back to the address that it stands for.
pub proof fn law_copy_button_leads_to_its_address(address: Seq<char>)
    ensures
        tap_of(copy_data(address)) == (TapText::CopyAddress { address }),
{
    let d = copy_data(address);
    reveal_strlit("addlp:");
    reveal_strlit("closepos:");
    reveal_strlit("copyaddr:");
    assert(d[0] == 'c' && d[1] == 'o');
    assert(!begins_with(d, "addlp:"@)) by {
        if begins_with(d, "addlp:"@) {
            assert(d.subrange(0, 6)[0] == "addlp:"@[0]);
        }
    }
    assert(!begins_with(d, "closepos:"@)) by {
        if begins_with(d, "closepos:"@) {
            assert(d.subrange(0, 9)[1] == "closepos:"@[1]);
        }
    }
    assert(d.skip("copyaddr:"@.len() as int) =~= address);
    assert(d.subrange(0, "copyaddr:"@.len() as int) =~= "copyaddr:"@);
}

/// `/check`, `/dexscreener`, `/positions` and `/pnl` are understood whatever follows them.
pub proof fn law_commands_take_arguments(rest: Seq<char>)
    ensures
        command_of("/check"@ + rest) == Command::Check,
        command_of("/dexscreener"@ + rest) == Command::DexScreener,
        command_of("/positions"@ + rest) == Command::Positions,
        command_of("/pnl"@ + rest) == Command::Positions,
{
    reveal_strlit("/check");
    reveal_strlit("/dexscreener");
    reveal_strlit("/positions");
    reveal_strlit("/pnl");
    reveal_strlit("/toggle_screening");
    reveal_strlit("/toggle");
    reveal_strlit("/screening_status");
    reveal_strlit("/status");
    let check = "/check"@ + rest;
    assert(check.subrange(0, 6) =~= "/check"@);
    assert(check[1] == 'c');
    lemma_begins_otherwise(check, "/positions"@);
    lemma_begins_otherwise(check, "/pnl"@);
    let dex = "/dexscreener"@ + rest;
    assert(dex.subrange(0, 12) =~= "/dexscreener"@);
    assert(dex[1] == 'd');
    lemma_begins_otherwise(dex, "/positions"@);
    lemma_begins_otherwise(dex, "/pnl"@);
    lemma_begins_otherwise(dex, "/check"@);
    assert(dex != "/toggle_screening"@ && dex != "/toggle"@) by {
        assert("/toggle_screening"@[1] == 't' && "/toggle"@[1] == 't');
    }
    assert(dex != "/screening_status"@ && dex != "/status"@) by {
        assert("/screening_status"@[1] == 's' && "/status"@[1] == 's');
    }
    let positions = "/positions"@ + rest;
    assert(positions.subrange(0, 10) =~= "/positions"@);
    let pnl = "/pnl"@ + rest;
    assert(pnl.subrange(0, 4) =~= "/pnl"@);
}

/// A text does not begin with another where they differ in the second character.
proof fn lemma_begins_otherwise(s: Seq<char>, p: Seq<char>)
    requires
        p.len() > 1,
        s.len() > 1,
        s[1] != p[1],
    ensures
        !begins_with(s, p),
{
    if begins_with(s, p) {
        assert(s.subrange(0, p.len() as int)[1] == p[1]);
    }
}

/// A text that does not begin with a slash is no command.
pub proof fn law_commands_begin_with_a_slash(text: Seq<char>)
    requires
        text.len() == 0 || text[0] != '/',
    ensures
        command_of(text) == Command::Ignore,
{
    reveal_strlit("/check");
    reveal_strlit("/dexscreener");
    reveal_strlit("/positions");
    reveal_strlit("/pnl");
    reveal_strlit("/toggle_screening");
    reveal_strlit("/toggle");
    reveal_strlit("/screening_status");
    reveal_strlit("/status");
    reveal_strlit("/dextools_top10");
    reveal_strlit("/uniswap_top10");
    lemma_begins_plain(text, "/check"@);
    lemma_begins_plain(text, "/dexscreener"@);
    lemma_begins_plain(text, "/positions"@);
    lemma_begins_plain(text, "/pnl"@);
    assert("/toggle_screening"@[0] == '/' && "/toggle"@[0] == '/' && "/screening_status"@[0] == '/'
        && "/status"@[0] == '/' && "/dextools_top10"@[0] == '/' && "/uniswap_top10"@[0] == '/');
}

proof fn lemma_begins_plain(s: Seq<char>, p: Seq<char>)
    requires
        p.len() > 0,
        s.len() == 0 || s[0] != p[0],
    ensures
        !begins_with(s, p),
{
    if begins_with(s, p) {
        assert(s.subrange(0, p.len() as int)[0] == p[0]);
    }
}

} // verus!
