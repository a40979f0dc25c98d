use robinhood_lp_bot::chain::pricing::{i256_to_f64, I256};
use robinhood_lp_bot::address::U256;
use robinhood_lp_bot::double::Double;
use robinhood_lp_bot::fixed::{push_fixed, push_fixed_signed};
use robinhood_lp_bot::numbers::{
    BILLION, DAYS_PER_YEAR, FIFTY, FOUR_TENTHS, HALF_MILLION, HUNDRED, HUNDRED_THOUSAND, MILLION,
    SECONDS_PER_DAY, SECONDS_PER_HOUR, SECONDS_PER_MONTH, SEVENTY, SIXTY, SIX_TENTHS, TEN_THOUSAND,
    THOUSAND, TWENTY_FOUR, TWENTY_THOUSAND, TWO, TWO_96, TWO_HUNDRED_THOUSAND,
};
use robinhood_lp_bot::order::power_of_ten;

fn d(x: f64) -> Double {
    Double { bits: x.to_bits() }
}

fn samples() -> Vec<f64> {
    let mut v = vec![
        0.0,
        -0.0,
        1.0,
        -1.0,
        0.1,
        0.2,
        0.3,
        1.0 / 3.0,
        2.5,
        1e-310,
        -4.9e-324,
        5e-324,
        f64::MIN_POSITIVE,
        f64::MAX,
        f64::MIN,
        f64::INFINITY,
        f64::NEG_INFINITY,
        f64::NAN,
        1e22,
        1e23,
        123456789.125,
        9007199254740993.0,
        3.4e38,
        1.8446744073709552e19,
        -99.995,
        0.045,
    ];
    let mut x: u64 = 0x9E37_79B9_7F4A_7C15;
    for _ in 0..150 {
        x ^= x << 13;
        x ^= x >> 7;
        x ^= x << 17;
        v.push(f64::from_bits(x));
        v.push((x % 1_000_000_007) as f64 / 1000.0);
    }
    v
}

fn agree(ours: Double, theirs: f64) {
    if theirs.is_nan() {
        assert!(ours.is_nan());
    } else {
        assert_eq!(ours.bits, theirs.to_bits());
    }
}

#[test]
fn sums_and_differences_round_as_the_machine_does() {
    for a in samples() {
        for b in samples() {
            agree(d(a).plus(d(b)), a + b);
            agree(d(a).minus(d(b)), a - b);
        }
    }
}

#[test]
fn products_and_quotients_round_as_the_machine_does() {
    for a in samples() {
        for b in samples() {
            agree(d(a).times(d(b)), a * b);
            agree(d(a).over(d(b)), a / b);
        }
    }
}

#[test]
fn comparisons_agree_with_the_machine() {
    for a in samples() {
        for b in samples() {
            assert_eq!(d(a).less_than(d(b)), a < b);
            assert_eq!(d(a).no_more_than(d(b)), a <= b);
            if a != b {
                agree(d(a).smaller(d(b)), a.min(b));
                agree(d(a).larger(d(b)), a.max(b));
            }
        }
        agree(d(a).negated(), -a);
        agree(d(a).absolute(), a.abs());
        assert_eq!(d(a).is_finite(), a.is_finite());
    }
}

#[test]
fn integers_convert_both_ways() {
    let integers = [
        0u128,
        1,
        9007199254740992,
        9007199254740993,
        9007199254740995,
        u64::MAX as u128,
        u128::MAX,
        u128::MAX / 2 + 1,
        1_000_000_000_000_000_000_000,
    ];
    for n in integers {
        agree(Double::from_u128(n), n as f64);
    }
    for a in samples() {
        assert_eq!(d(a).to_u128(), a as u128);
        assert_eq!(d(a).to_u64(), a as u64);
    }
}

#[test]
fn powers_of_ten_agree_with_the_machine() {
    for n in -60..=60 {
        agree(power_of_ten(n), 10f64.powi(std::hint::black_box(n)));
    }
    agree(power_of_ten(255), 10f64.powi(std::hint::black_box(255)));
}

#[test]
fn fixed_decimals_agree_with_the_machine() {
    for a in samples() {
        let mut text = String::new();
        push_fixed(&mut text, d(a), 0);
        assert_eq!(text, format!("{:.0}", a));
        let mut text = String::from("x");
        push_fixed(&mut text, d(a), 1);
        assert_eq!(text, format!("x{:.1}", a));
        let mut text = String::new();
        push_fixed(&mut text, d(a), 2);
        assert_eq!(text, format!("{:.2}", a));
        let mut text = String::new();
        push_fixed_signed(&mut text, d(a), 1);
        assert_eq!(text, format!("{:+.1}", a));
        let mut text = String::new();
        push_fixed_signed(&mut text, d(a), 2);
        assert_eq!(text, format!("{:+.2}", a));
    }
}

#[test]
fn halves_are_written_to_the_even_digit() {
    let mut text = String::new();
    push_fixed(&mut text, d(2.5), 0);
    push_fixed(&mut text, d(0.125), 2);
    assert_eq!(text, "20.12");
}

#[test]
fn constants_have_the_bits_of_their_values() {
    let table = [
        (TWO, 2.0),
        (TWENTY_FOUR, 24.0),
        (FIFTY, 50.0),
        (SIXTY, 60.0),
        (SEVENTY, 70.0),
        (HUNDRED, 100.0),
        (DAYS_PER_YEAR, 365.0),
        (THOUSAND, 1_000.0),
        (SECONDS_PER_HOUR, 3600.0),
        (TEN_THOUSAND, 10_000.0),
        (TWENTY_THOUSAND, 20_000.0),
        (SECONDS_PER_DAY, 86_400.0),
        (HUNDRED_THOUSAND, 100_000.0),
        (TWO_HUNDRED_THOUSAND, 200_000.0),
        (HALF_MILLION, 500_000.0),
        (MILLION, 1_000_000.0),
        (SECONDS_PER_MONTH, 2_592_000.0),
        (BILLION, 1_000_000_000.0),
        (TWO_96, 79228162514264337593543950336.0),
        (SIX_TENTHS, 0.6),
        (FOUR_TENTHS, 0.4),
    ];
    for (bits, value) in table {
        let value: f64 = value;
        assert_eq!(bits, value.to_bits());
    }
}

#[test]
fn signed_amounts_round_to_the_nearest_number() {
    let amount = |negative: bool, hi: u128, lo: u128| I256 { negative, size: U256 { hi, lo } };
    agree(i256_to_f64(amount(false, 0, 12345)), 12345.0);
    agree(i256_to_f64(amount(true, 0, 12345)), -12345.0);
    agree(i256_to_f64(amount(true, 0, 0)), 0.0);
    let two_128 = 340282366920938463463374607431768211456.0;
    agree(i256_to_f64(amount(false, 1, 0)), two_128);
    agree(i256_to_f64(amount(true, 1, 1)), -two_128);
    agree(i256_to_f64(amount(true, 1u128 << 127, 0)), -two_128 * (1u128 << 127) as f64);
    agree(i256_to_f64(amount(false, (1 << 53) + 1, 0)), two_128 * 9007199254740992.0);
    agree(i256_to_f64(amount(false, (1 << 53) + 1, 1)), two_128 * 9007199254740994.0);
    agree(i256_to_f64(amount(false, (1 << 70) + (1 << 17), 0)), two_128 * (1u128 << 70) as f64);
    agree(
        i256_to_f64(amount(false, (1 << 70) + (1 << 17), 1)),
        two_128 * ((1u128 << 70) + (1 << 18)) as f64,
    );
}
