//! Bit patterns of the constants that the formulas use.
use vstd::prelude::*;

verus! {

/// 2.
pub const TWO: u64 = 0x4000_0000_0000_0000;

/// 24.
pub const TWENTY_FOUR: u64 = 0x4038_0000_0000_0000;

/// 50.
pub const FIFTY: u64 = 0x4049_0000_0000_0000;

/// 60.
pub const SIXTY: u64 = 0x404E_0000_0000_0000;

/// 70.
pub const SEVENTY: u64 = 0x4051_8000_0000_0000;

/// 100.
pub const HUNDRED: u64 = 0x4059_0000_0000_0000;

/// 365.
pub const DAYS_PER_YEAR: u64 = 0x4076_D000_0000_0000;

/// 1,000.
pub const THOUSAND: u64 = 0x408F_4000_0000_0000;

/// 3,600.
pub const SECONDS_PER_HOUR: u64 = 0x40AC_2000_0000_0000;

/// 10,000.
pub const TEN_THOUSAND: u64 = 0x40C3_8800_0000_0000;

/// 20,000.
pub const TWENTY_THOUSAND: u64 = 0x40D3_8800_0000_0000;

/// 86,400.
pub const SECONDS_PER_DAY: u64 = 0x40F5_1800_0000_0000;

/// 100,000.
pub const HUNDRED_THOUSAND: u64 = 0x40F8_6A00_0000_0000;

/// 200,000.
pub const TWO_HUNDRED_THOUSAND: u64 = 0x4108_6A00_0000_0000;

/// 500,000.
pub const HALF_MILLION: u64 = 0x411E_8480_0000_0000;

/// 1,000,000.
pub const MILLION: u64 = 0x412E_8480_0000_0000;

/// 2,592,000, the seconds of thirty days.
pub const SECONDS_PER_MONTH: u64 = 0x4143_C680_0000_0000;

/// 1,000,000,000.
pub const BILLION: u64 = 0x41CD_CD65_0000_0000;

/// `2^96`.
pub const TWO_96: u64 = 0x45F0_0000_0000_0000;

/// The number nearest to 0.6.
pub const SIX_TENTHS: u64 = 0x3FE3_3333_3333_3333;

/// The number nearest to 0.4.
pub const FOUR_TENTHS: u64 = 0x3FD9_9999_9999_999A;

} // verus!
