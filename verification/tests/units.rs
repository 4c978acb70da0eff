use process_manager::units::{
    bytes_to_gb_or_tb_tuple, percentage, whole_percent, with_margin, StorageUnit, FULL_SHARE, GB,
    TB,
};

#[test]
fn nothing_used_is_zero_percent() {
    assert_eq!(percentage(0, 16_000_000_000), 0);
}

#[test]
fn everything_used_is_one_hundred_percent() {
    assert_eq!(percentage(16_000_000_000, 16_000_000_000), 100_000);
    assert_eq!(percentage(u64::MAX, u64::MAX), FULL_SHARE as u128);
}

#[test]
fn a_third_is_rounded_down() {
    assert_eq!(percentage(1, 3), 33_333);
    assert_eq!(percentage(2, 3), 66_666);
}

#[test]
fn nothing_is_used_of_nothing() {
    assert_eq!(percentage(0, 0), 0);
    assert_eq!(percentage(5, 0), 0);
}

#[test]
fn more_than_the_whole_is_more_than_one_hundred_percent() {
    assert_eq!(percentage(3, 2), 150_000);
    assert_eq!(percentage(u64::MAX, 1), u64::MAX as u128 * 100_000);
}

#[test]
fn shares_of_a_part_stay_within_the_whole() {
    let total = 7_919u64;
    for used in [0u64, 1, 2, 100, 3_959, 7_918, 7_919] {
        assert!(percentage(used, total) <= FULL_SHARE as u128);
    }
}

#[test]
fn whole_percent_rounds_to_the_nearest() {
    assert_eq!(whole_percent(0), 0);
    assert_eq!(whole_percent(499), 0);
    assert_eq!(whole_percent(500), 1);
    assert_eq!(whole_percent(12_345), 12);
    assert_eq!(whole_percent(12_500), 13);
    assert_eq!(whole_percent(100_000), 100);
    assert_eq!(whole_percent(u64::MAX), 18_446_744_073_709_552);
}

#[test]
fn margin_is_added_on_top() {
    assert_eq!(with_margin(100, 19), 119);
    assert_eq!(with_margin(450, 23), 553);
    assert_eq!(with_margin(0, 19), 0);
    assert_eq!(with_margin(1, 19), 1);
    assert_eq!(with_margin(u64::MAX, 255), u64::MAX as u128 + u64::MAX as u128 * 255 / 100);
}

#[test]
fn sizes_below_a_terabyte_are_in_gigabytes() {
    assert_eq!(bytes_to_gb_or_tb_tuple(0), (0, StorageUnit::Gigabytes));
    assert_eq!(bytes_to_gb_or_tb_tuple(GB), (100, StorageUnit::Gigabytes));
    assert_eq!(bytes_to_gb_or_tb_tuple(GB + GB / 2), (150, StorageUnit::Gigabytes));
    assert_eq!(bytes_to_gb_or_tb_tuple(TB - 1), (102_399, StorageUnit::Gigabytes));
}

#[test]
fn sizes_from_a_terabyte_on_are_in_terabytes() {
    assert_eq!(bytes_to_gb_or_tb_tuple(TB), (100, StorageUnit::Terabytes));
    assert_eq!(bytes_to_gb_or_tb_tuple(2 * TB + TB / 4), (225, StorageUnit::Terabytes));
    assert_eq!(bytes_to_gb_or_tb_tuple(u64::MAX), (1_677_721_599, StorageUnit::Terabytes));
}

#[test]
fn units_are_abbreviated() {
    assert_eq!(StorageUnit::Gigabytes.label(), "GB");
    assert_eq!(StorageUnit::Terabytes.label(), "TB");
}
