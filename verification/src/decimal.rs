//! Decimal notation of natural numbers.
use vstd::prelude::*;
use vstd::string::*;

use crate::text::{chars_of};

verus! {

/// The character of a decimal digit.
pub open spec fn digit_char(d: nat) -> char {
    (48 + d) as u8 as char
}

pub fn digit_of(d: u8) -> (r: char)
    requires
        d < 10,
    ensures
        r == digit_char(d as nat),
{
    (48u8 + d) as char
}

/// `n` in decimal, without leading zeros.
pub open spec fn decimal(n: nat) -> Seq<char>
    decreases n,
{
    if n < 10 {
        seq![digit_char(n)]
    } else {
        decimal(n / 10).push(digit_char(n % 10))
    }
}

/// The last `width` decimal digits of `n`, leading zeros included.
pub open spec fn last_digits(n: nat, width: nat) -> Seq<char>
    decreases width,
{
    if width == 0 {
        Seq::empty()
    } else {
        last_digits(n / 10, (width - 1) as nat).push(digit_char(n % 10))
    }
}

/// The number whose decimal digits, the lowest first, are `ds`.
pub open spec fn value_of(ds: Seq<u8>) -> nat
    decreases ds.len(),
{
    if ds.len() == 0 {
        0
    } else {
        ds[0] as nat + 10 * value_of(ds.skip(1))
    }
}

/// Whether all elements are decimal digits.
pub open spec fn all_digits(ds: Seq<u8>) -> bool {
    forall|i: int| 0 <= i < ds.len() ==> ds[i] < 10
}

/// The characters of `ds`, the highest digit first.
pub open spec fn reversed_chars(ds: Seq<u8>) -> Seq<char>
    decreases ds.len(),
{
    if ds.len() == 0 {
        Seq::empty()
    } else {
        reversed_chars(ds.skip(1)).push(digit_char(ds[0] as nat))
    }
}

/// Whether `ds` has no leading zero, a lone zero aside.
pub open spec fn normal(ds: Seq<u8>) -> bool {
    &&& ds.len() > 0
    &&& all_digits(ds)
    &&& ds.len() == 1 || ds.last() != 0
}

proof fn lemma_value_split(ds: Seq<u8>)
    requires
        ds.len() > 0,
        all_digits(ds),
    ensures
        value_of(ds) % 10 == ds[0],
        value_of(ds) / 10 == value_of(ds.skip(1)),
        all_digits(ds.skip(1)),
{
}

proof fn lemma_value_positive(ds: Seq<u8>)
    requires
        ds.len() > 0,
        ds.last() != 0,
    ensures
        value_of(ds) > 0,
    decreases ds.len(),
{
    if ds.len() > 1 {
        assert(ds.skip(1).last() == ds.last());
        lemma_value_positive(ds.skip(1));
    }
}

/// Digits without a leading zero spell the number's decimal notation.
pub proof fn lemma_decimal_of_digits(ds: Seq<u8>)
    requires
        normal(ds),
    ensures
        decimal(value_of(ds)) == reversed_chars(ds),
    decreases ds.len(),
{
    lemma_value_split(ds);
    if ds.len() == 1 {
        assert(ds.skip(1).len() == 0);
        assert(value_of(ds.skip(1)) == 0);
        assert(reversed_chars(ds.skip(1)) =~= Seq::empty());
        assert(reversed_chars(ds) =~= seq![digit_char(ds[0] as nat)]);
    } else {
        assert(ds.skip(1).last() == ds.last());
        lemma_value_positive(ds.skip(1));
        lemma_decimal_of_digits(ds.skip(1));
    }
}

/// The lowest `width` digits spell the number's last digits.
pub proof fn lemma_last_digits(ds: Seq<u8>, width: nat)
    requires
        all_digits(ds),
        width <= ds.len(),
    ensures
        last_digits(value_of(ds), width) == reversed_chars(ds.take(width as int)),
    decreases width,
{
    if width > 0 {
        lemma_value_split(ds);
        lemma_last_digits(ds.skip(1), (width - 1) as nat);
        assert(ds.take(width as int).skip(1) =~= ds.skip(1).take(width - 1));
    }
}

/// Ten to the power `d`.
pub open spec fn ten_power(d: nat) -> nat
    decreases d,
{
    if d == 0 {
        1
    } else {
        10 * ten_power((d - 1) as nat)
    }
}

/// Dropping the lowest `d` digits divides by `10^d`.
pub proof fn lemma_value_skip(ds: Seq<u8>, d: nat)
    requires
        all_digits(ds),
        d <= ds.len(),
    ensures
        value_of(ds.skip(d as int)) == value_of(ds) / ten_power(d),
        ten_power(d) > 0,
    decreases d,
{
    if d == 0 {
        assert(ds.skip(0) =~= ds);
    } else {
        lemma_value_split(ds);
        lemma_value_skip(ds.skip(1), (d - 1) as nat);
        assert(ds.skip(1).skip(d - 1) =~= ds.skip(d as int));
        vstd::arithmetic::div_mod::lemma_div_denominator(
            value_of(ds) as int,
            10,
            ten_power((d - 1) as nat) as int,
        );
    }
}

/// The digits of `n`, the lowest first.
pub fn digits_of(n: u128) -> (r: Vec<u8>)
    ensures
        normal(r@),
        value_of(r@) == n,
    decreases n,
{
    if n < 10 {
        let mut r: Vec<u8> = Vec::new();
        r.push(n as u8);
        assert(r@.skip(1).len() == 0);
        assert(value_of(r@.skip(1)) == 0);
        r
    } else {
        let rest: Vec<u8> = digits_of(n / 10);
        let mut r: Vec<u8> = Vec::new();
        r.push((n % 10) as u8);
        let mut i: usize = 0;
        while i < rest.len()
            invariant
                i <= rest@.len(),
                r@.len() == i + 1,
                r@[0] == (n % 10) as u8,
                r@.skip(1) == rest@.take(i as int),
            decreases rest@.len() - i,
        {
            r.push(rest[i]);
            i = i + 1;
            assert(r@.skip(1) =~= rest@.take(i as int));
        }
        assert(rest@.take(rest@.len() as int) =~= rest@);
        proof {
            assert forall|j: int| 0 <= j < r@.len() implies r@[j] < 10 by {
                if j > 0 {
                    assert(r@[j] == r@.skip(1)[j - 1]);
                }
            }
            assert(r@.last() == r@.skip(1).last());
            if rest@.len() == 1 {
                assert(rest@.skip(1).len() == 0);
                assert(value_of(rest@.skip(1)) == 0);
            }
        }
        r
    }
}

/// Appends the digits from position `from` on, the highest first.
pub fn push_digits(out: &mut String, ds: &Vec<u8>, from: usize, to: usize)
    requires
        all_digits(ds@),
        from <= to <= ds@.len(),
    ensures
        final(out)@ == old(out)@ + reversed_chars(ds@.subrange(from as int, to as int)),
{
    let ghost start = out@;
    let mut i: usize = to;
    let ghost part = ds@.subrange(from as int, to as int);
    assert(part.skip(part.len() as int) =~= Seq::empty());
    assert(start + reversed_chars(Seq::empty()) =~= start);
    while i > from
        invariant
            from <= i <= to <= ds@.len(),
            all_digits(ds@),
            part == ds@.subrange(from as int, to as int),
            out@ == start + reversed_chars(part.skip(i - from)),
        decreases i,
    {
        i = i - 1;
        out.push(digit_of(ds[i]));
        assert(part.skip(i - from).skip(1) =~= part.skip(i - from + 1));
        assert(start + reversed_chars(part.skip(i - from)) =~= (start + reversed_chars(
            part.skip(i - from + 1),
        )).push(digit_char(ds@[i as int] as nat)));
    }
    assert(part.skip(0) =~= part);
}

/// Appends `n` in decimal.
pub fn push_decimal(out: &mut String, n: u128)
    ensures
        final(out)@ == old(out)@ + decimal(n as nat),
{
    let ds: Vec<u8> = digits_of(n);
    proof {
        lemma_decimal_of_digits(ds@);
        assert(ds@.subrange(0, ds@.len() as int) =~= ds@);
    }
    push_digits(out, &ds, 0, ds.len());
}

/// `n` with a comma before every third digit from the right.
pub open spec fn thousands(n: nat) -> Seq<char>
    decreases n,
{
    if n < 1000 {
        decimal(n)
    } else {
        thousands(n / 1000).push(',') + last_digits(n, 3)
    }
}

/// Appends the last three digits of `n`.
fn push_three(out: &mut String, n: u64)
    ensures
        final(out)@ == old(out)@ + last_digits(n as nat, 3),
{
    let ghost start = out@;
    out.push(digit_of(((n / 100) % 10) as u8));
    out.push(digit_of(((n / 10) % 10) as u8));
    out.push(digit_of((n % 10) as u8));
    proof {
        reveal_with_fuel(last_digits, 4);
        assert(n as nat / 10 / 10 == n as nat / 100);
        assert(last_digits(n as nat, 3) =~= seq![
            digit_char(n as nat / 100 % 10),
            digit_char(n as nat / 10 % 10),
            digit_char(n as nat % 10),
        ]);
        assert(out@ =~= start + last_digits(n as nat, 3));
    }
}

/// Format a number with comma separators.
pub fn fmt_num(n: u64) -> (r: String)
    ensures
        r@ == thousands(n as nat),
    decreases n,
{
    if n < 1000 {
        let mut r: String = String::new();
        push_decimal(&mut r, n as u128);
        assert(Seq::<char>::empty() + decimal(n as nat) =~= decimal(n as nat));
        r
    } else {
        let mut r: String = fmt_num(n / 1000);
        r.push(',');
        push_three(&mut r, n);
        r
    }
}

/// Whether `c` is a decimal digit.
pub open spec fn is_digit(c: char) -> bool {
    '0' <= c && c <= '9'
}

/// The number whose decimal notation is `s`.
pub open spec fn number_of(s: Seq<char>) -> nat
    decreases s.len(),
{
    if s.len() == 0 {
        0
    } else {
        10 * number_of(s.drop_last()) + (s.last() as nat - 48) as nat
    }
}

/// `s` without one leading plus sign.
pub open spec fn unsigned_part(s: Seq<char>) -> Seq<char> {
    if s.len() > 0 && s[0] == '+' {
        s.skip(1)
    } else {
        s
    }
}

/// The 64-bit number that `s` denotes: decimal digits, after an optional plus sign.
pub open spec fn parsed_u64(s: Seq<char>) -> Option<u64> {
    let d = unsigned_part(s);
    if d.len() > 0 && (forall|i: int| 0 <= i < d.len() ==> is_digit(#[trigger] d[i])) && number_of(
        d,
    ) <= u64::MAX {
        Some(number_of(d) as u64)
    } else {
        None
    }
}

proof fn lemma_number_prefix(s: Seq<char>, i: int)
    requires
        0 <= i <= s.len(),
    ensures
        number_of(s.take(i)) <= number_of(s),
    decreases s.len() - i,
{
    if i < s.len() {
        assert(s.take(i + 1).drop_last() =~= s.take(i));
        lemma_number_prefix(s, i + 1);
    } else {
        assert(s.take(i) =~= s);
    }
}

/// The 64-bit number that `s` denotes.
pub fn parse_u64(s: &str) -> (r: Option<u64>)
    ensures
        r == parsed_u64(s@),
{
    let v: Vec<char> = chars_of(s);
    let from: usize = if v.len() > 0 && v[0] == '+' {
        1
    } else {
        0
    };
    let ghost d = unsigned_part(s@);
    assert(d =~= v@.skip(from as int));
    if from == v.len() {
        return None;
    }
    let mut n: u64 = 0;
    let mut i: usize = from;
    assert(d.take(0) =~= Seq::empty());
    while i < v.len()
        invariant
            from <= i <= v@.len(),
            v@ == s@,
            d == v@.skip(from as int),
            d == unsigned_part(s@),
            n == number_of(d.take(i - from)),
            forall|j: int| 0 <= j < i - from ==> is_digit(#[trigger] d[j]),
        decreases v@.len() - i,
    {
        let c: char = v[i];
        assert(d[i - from] == c);
        if !('0' <= c && c <= '9') {
            return None;
        }
        let x: u64 = (c as u32 - 48) as u64;
        assert(d.take(i - from + 1).drop_last() =~= d.take(i - from));
        proof {
            lemma_number_prefix(d, i - from + 1);
        }
        if n > (u64::MAX - x) / 10 {
            return None;
        }
        n = n * 10 + x;
        i = i + 1;
    }
    assert(d.take(d.len() as int) =~= d);
    Some(n)
}

proof fn lemma_decimal_chars(n: nat)
    ensures
        decimal(n).len() > 0,
        forall|i: int| 0 <= i < decimal(n).len() ==> is_digit(#[trigger] decimal(n)[i]),
        number_of(decimal(n)) == n,
    decreases n,
{
    if n < 10 {
        assert(decimal(n).drop_last() =~= Seq::empty());
        assert(number_of(decimal(n).drop_last()) == 0);
    } else {
        lemma_decimal_chars(n / 10);
        assert(decimal(n).drop_last() =~= decimal(n / 10));
    }
}

/// Reading back what was written: the decimal notation of a 64-bit number denotes
/// that number.
pub proof fn law_decimal_round_trip(n: u64)
    ensures
        parsed_u64(decimal(n as nat)) == Some(n),
{
    lemma_decimal_chars(n as nat);
    assert(is_digit(decimal(n as nat)[0]));
    assert(unsigned_part(decimal(n as nat)) == decimal(n as nat));
}

} // verus!
