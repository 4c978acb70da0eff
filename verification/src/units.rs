//! Fixed-point quantities: percentages, plot margins and storage sizes.

use vstd::arithmetic::div_mod::{lemma_div_is_ordered, lemma_div_multiples_vanish};
use vstd::arithmetic::mul::lemma_mul_inequality;
use vstd::prelude::*;

verus! {

/// One hundred percent, in thousandths of a percent.
pub const FULL_SHARE: u64 = 100_000;

/// Bytes in a gigabyte.
pub const GB: u64 = 1_073_741_824;

/// Bytes in a terabyte.
pub const TB: u64 = 1_099_511_627_776;

/// The share that `used` is of `total`, in thousandths of a percent, rounded
/// down. Nothing is used of a total of zero.
pub open spec fn share_of(used: int, total: int) -> int {
    if total > 0 {
        used * 100_000 / total
    } else {
        0
    }
}

/// A value given in thousandths, rounded to the nearest whole; a half rounds up.
pub open spec fn rounded_whole(thousandths: int) -> int {
    (thousandths + 500) / 1000
}

/// `bound` enlarged by `percent` hundredths of itself, rounded down.
pub open spec fn enlarged(bound: int, percent: int) -> int {
    bound + bound * percent / 100
}

/// A share of at most the whole is at most one hundred percent.
pub proof fn lemma_share_of_part(used: int, total: int)
    requires
        0 <= used <= total,
    ensures
        0 <= share_of(used, total) <= 100_000,
{
    if total > 0 {
        lemma_mul_inequality(used, total, 100_000);
        lemma_mul_inequality(0, used, 100_000);
        lemma_div_is_ordered(used * 100_000, total * 100_000, total);
        lemma_div_is_ordered(0, used * 100_000, total);
        lemma_div_multiples_vanish(100_000, total);
    }
}

/// The share that `used` is of `total`, in thousandths of a percent.
pub fn percentage(used: u64, total: u64) -> (share: u128)
    ensures
        share == share_of(used as int, total as int),
        used <= total ==> share <= FULL_SHARE,
{
    if total == 0 {
        0
    } else {
        proof {
            if used <= total {
                lemma_share_of_part(used as int, total as int);
            }
            lemma_mul_inequality(used as int, u64::MAX as int, 100_000);
        }
        let scaled: u128 = used as u128 * 100_000;
        scaled / (total as u128)
    }
}

/// A percentage given in thousandths, rounded to whole percent.
pub fn whole_percent(thousandths: u64) -> (whole: u64)
    ensures
        whole == rounded_whole(thousandths as int),
{
    let quotient: u64 = thousandths / 1000;
    if thousandths % 1000 >= 500 {
        quotient + 1
    } else {
        quotient
    }
}

/// The upper edge of a plot whose largest value is `bound`: the bound and
/// `percent` hundredths of it on top.
pub fn with_margin(bound: u64, percent: u8) -> (edge: u128)
    ensures
        edge == enlarged(bound as int, percent as int),
{
    proof {
        lemma_mul_inequality(bound as int, u64::MAX as int, percent as int);
        lemma_mul_inequality(percent as int, 255, u64::MAX as int);
    }
    let widened: u128 = bound as u128;
    widened + widened * (percent as u128) / 100
}

/// The unit in which a storage size is shown.
#[derive(Clone, Copy, Debug, PartialEq, Eq, Structural)]
pub enum StorageUnit {
    Gigabytes,
    Terabytes,
}

impl StorageUnit {
    /// The unit's abbreviation.
    pub fn label(&self) -> (text: &'static str)
        ensures
            text@ == (match *self {
                StorageUnit::Gigabytes => "GB"@,
                StorageUnit::Terabytes => "TB"@,
            }),
    {
        match self {
            StorageUnit::Gigabytes => "GB",
            StorageUnit::Terabytes => "TB",
        }
    }
}

/// The unit a size of `bytes` is shown in: terabytes from one terabyte on.
pub open spec fn unit_for(bytes: int) -> StorageUnit {
    if bytes >= TB {
        StorageUnit::Terabytes
    } else {
        StorageUnit::Gigabytes
    }
}

/// A size of `bytes` in hundredths of its unit, rounded down.
pub open spec fn hundredths_in_unit(bytes: int) -> int {
    if bytes >= TB {
        bytes * 100 / (TB as int)
    } else {
        bytes * 100 / (GB as int)
    }
}

/// A size in bytes as hundredths of gigabytes, or of terabytes from one
/// terabyte on.
pub fn bytes_to_gb_or_tb_tuple(bytes: u64) -> (size: (u64, StorageUnit))
    ensures
        size.0 == hundredths_in_unit(bytes as int),
        size.1 == unit_for(bytes as int),
{
    let scaled: u128 = bytes as u128 * 100;
    if bytes >= TB {
        ((scaled / (TB as u128)) as u64, StorageUnit::Terabytes)
    } else {
        ((scaled / (GB as u128)) as u64, StorageUnit::Gigabytes)
    }
}

} // verus!
