//! Account addresses and token amounts.
use vstd::arithmetic::div_mod::lemma_fundamental_div_mod_converse;
use vstd::prelude::*;
use vstd::string::*;

use crate::decimal::decimal;
use crate::text::holds_at;

verus! {

/// A 160-bit account address: its 32 high bits and its 128 low bits.
#[derive(Clone, Copy, Debug, PartialEq, Eq, Structural)]
pub struct Address {
    pub hi: u32,
    pub lo: u128,
}

/// A 256-bit amount, by its two halves.
#[derive(Clone, Copy, Debug, PartialEq, Eq, Structural)]
pub struct U256 {
    pub hi: u128,
    pub lo: u128,
}

/// `2^128`.
pub open spec fn two_128() -> nat {
    0x1_0000_0000_0000_0000_0000_0000_0000_0000nat
}

impl Address {
    pub open spec fn value(self) -> nat {
        self.hi as nat * two_128() + self.lo as nat
    }

    /// The address of all zeros.
    pub open spec fn zero() -> Address {
        Address { hi: 0, lo: 0 }
    }

    pub fn is_zero(self) -> (r: bool)
        ensures
            r == (self == Address::zero()),
    {
        self.hi == 0 && self.lo == 0
    }
}

impl U256 {
    pub open spec fn value(self) -> nat {
        self.hi as nat * two_128() + self.lo as nat
    }

    /// The amount `v`.
    pub open spec fn of(v: u128) -> U256 {
        U256 { hi: 0, lo: v }
    }

    pub fn from_u128(v: u128) -> (r: U256)
        ensures
            r == U256::of(v),
            r.value() == v,
    {
        U256 { hi: 0, lo: v }
    }

    pub fn is_zero(self) -> (r: bool)
        ensures
            r == (self.value() == 0),
    {
        self.hi == 0 && self.lo == 0
    }

    /// Whether this amount is below the other one.
    pub fn less_than(self, other: U256) -> (r: bool)
        ensures
            r == (self.value() < other.value()),
    {
        self.hi < other.hi || (self.hi == other.hi && self.lo < other.lo)
    }
}

/// The address with the given numeric value.
pub open spec fn address_of(n: nat) -> Address {
    Address { hi: (n / two_128()) as u32, lo: (n % two_128()) as u128 }
}

pub open spec fn is_hex(c: char) -> bool {
    ||| '0' <= c && c <= '9'
    ||| 'a' <= c && c <= 'f'
    ||| 'A' <= c && c <= 'F'
}

pub open spec fn hex_value(c: char) -> nat {
    if '0' <= c && c <= '9' {
        (c as nat - 48) as nat
    } else if 'a' <= c && c <= 'f' {
        (c as nat - 87) as nat
    } else {
        (c as nat - 55) as nat
    }
}

/// The lower-case character of a hexadecimal digit.
pub open spec fn hex_char(d: nat) -> char {
    if d < 10 {
        (48 + d) as u8 as char
    } else {
        (87 + d) as u8 as char
    }
}

/// The number whose hexadecimal digits are `s`.
pub open spec fn hex_number(s: Seq<char>) -> nat
    decreases s.len(),
{
    if s.len() == 0 {
        0
    } else {
        16 * hex_number(s.drop_last()) + hex_value(s.last())
    }
}

/// The last `width` hexadecimal digits of `n`.
pub open spec fn hex_digits(n: nat, width: nat) -> Seq<char>
    decreases width,
{
    if width == 0 {
        Seq::empty()
    } else {
        hex_digits(n / 16, (width - 1) as nat).push(hex_char(n % 16))
    }
}

/// What may stand between hexadecimal digits: space, tab, line feed, carriage
/// return.
pub open spec fn hex_gap(c: char) -> bool {
    c == ' ' || c == '\t' || c == '\n' || c == '\r'
}

/// The digits of an address's notation: what follows the optional `0x`, without
/// gaps.
pub open spec fn address_digits(s: Seq<char>) -> Seq<char> {
    let body = if holds_at(s, seq!['0', 'x'], 0) {
        s.skip(2)
    } else {
        s
    };
    body.filter(|c: char| !hex_gap(c))
}

/// The address that `s` denotes: forty hexadecimal digits, in either case, after
/// an optional `0x`.
pub open spec fn parsed_address(s: Seq<char>) -> Option<Address> {
    let d = address_digits(s);
    if d.len() == 40 && (forall|i: int| 0 <= i < 40 ==> is_hex(#[trigger] d[i])) {
        Some(address_of(hex_number(d)))
    } else {
        None
    }
}

/// An address in lower-case hexadecimal, after `0x`.
pub open spec fn address_text(a: Address) -> Seq<char> {
    seq!['0', 'x'] + hex_digits(a.value(), 40)
}

/// `<ethers::types::Address as FromStr>::from_str` reads forty hexadecimal digits
/// as a big-endian number, skips one leading `0x`, ignores spaces, tabs and line
/// ends between digits, and fails on anything else.
#[verifier::external_body]
fn address_from_str(s: &str) -> (r: Option<Address>)
    ensures
        r == parsed_address(s@),
{
    let parsed = <ethers::types::Address as std::str::FromStr>::from_str(s);
    match parsed {
        Ok(a) => {
            let mut hi: [u8; 4] = [0; 4];
            let mut lo: [u8; 16] = [0; 16];
            hi.copy_from_slice(&a.as_bytes()[0..4]);
            lo.copy_from_slice(&a.as_bytes()[4..20]);
            Some(Address { hi: u32::from_be_bytes(hi), lo: u128::from_be_bytes(lo) })
        },
        Err(_) => None,
    }
}

/// The address that `s` denotes.
pub fn parse_address(s: &str) -> (r: Option<Address>)
    ensures
        r == parsed_address(s@),
{
    address_from_str(s)
}

/// The `LowerHex` impl of `ethers::types::Address`, with the alternate flag, writes
/// `0x` and the forty lower-case hexadecimal digits of the big-endian number.
#[verifier::external_body]
fn address_lower_hex(a: Address) -> (r: String)
    ensures
        r@ == address_text(a),
{
    let mut bytes: [u8; 20] = [0; 20];
    bytes[0..4].copy_from_slice(&a.hi.to_be_bytes());
    bytes[4..20].copy_from_slice(&a.lo.to_be_bytes());
    format!("{:#x}", ethers::types::Address::from(bytes))
}

/// The `Display` impl of `ethers::types::U256` writes the decimal digits of the
/// number, without leading zeros.
#[verifier::external_body]
fn amount_display(v: U256) -> (r: String)
    ensures
        r@ == decimal(v.value()),
{
    let mut bytes: [u8; 32] = [0; 32];
    bytes[0..16].copy_from_slice(&v.hi.to_be_bytes());
    bytes[16..32].copy_from_slice(&v.lo.to_be_bytes());
    format!("{}", ethers::types::U256::from_big_endian(&bytes))
}

impl Address {
    /// The address in lower-case hexadecimal, after `0x`.
    pub fn text(self) -> (r: String)
        ensures
            r@ == address_text(self),
    {
        address_lower_hex(self)
    }
}

impl U256 {
    /// The amount in decimal.
    pub fn text(self) -> (r: String)
        ensures
            r@ == decimal(self.value()),
    {
        amount_display(self)
    }
}

spec fn sixteen_power(n: nat) -> nat
    decreases n,
{
    if n == 0 {
        1
    } else {
        16 * sixteen_power((n - 1) as nat)
    }
}

proof fn lemma_hex_digits(n: nat, width: nat)
    requires
        n < sixteen_power(width),
    ensures
        hex_digits(n, width).len() == width,
        forall|i: int|
            0 <= i < width ==> is_hex(#[trigger] hex_digits(n, width)[i]) && !hex_gap(
                hex_digits(n, width)[i],
            ),
        hex_number(hex_digits(n, width)) == n,
    decreases width,
{
    if width > 0 {
        lemma_hex_digits(n / 16, (width - 1) as nat);
        assert(hex_digits(n, width).drop_last() =~= hex_digits(n / 16, (width - 1) as nat));
    }
}

proof fn lemma_filter_all(s: Seq<char>)
    requires
        forall|i: int| 0 <= i < s.len() ==> !hex_gap(#[trigger] s[i]),
    ensures
        s.filter(|c: char| !hex_gap(c)) == s,
    decreases s.len(),
{
    reveal(Seq::filter);
    if s.len() > 0 {
        lemma_filter_all(s.drop_last());
        assert(s =~= s.drop_last().push(s.last()));
    }
}

/// Reading back what was written: the notation of an address denotes that address.
pub proof fn law_address_round_trip(a: Address)
    ensures
        parsed_address(address_text(a)) == Some(a),
{
    let v = a.value();
    assert(sixteen_power(40) == 0x1_0000_0000_0000_0000_0000_0000_0000_0000_0000_0000nat) by {
        reveal_with_fuel(sixteen_power, 41);
    }
    lemma_hex_digits(v, 40);
    let s = address_text(a);
    let body = hex_digits(v, 40);
    assert(s.subrange(0, 2) =~= seq!['0', 'x']);
    assert(s.skip(2) =~= body);
    lemma_filter_all(body);
    lemma_fundamental_div_mod_converse(v as int, two_128() as int, a.hi as int, a.lo as int);
}

} // verus!
