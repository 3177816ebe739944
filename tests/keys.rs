use kline_indicators::{bucket_key, bucket_keys, output_key, pad, BucketTime};

#[test]
fn test_determine_calculation_logic() {
    assert_eq!(((25 + 9) / 10) * 10, 30);
    assert_eq!(((15 + 9) / 10) * 10, 20);
}

#[test]
fn pad_two_digits() {
    assert_eq!(pad(0), "00");
    assert_eq!(pad(7), "07");
    assert_eq!(pad(10), "10");
    assert_eq!(pad(59), "59");
    assert_eq!(pad(123), "123");
}

#[test]
fn bucket_key_layout() {
    let t = BucketTime { year: 2024, month: 3, day: 5, hour: 9, minute: 7 };
    assert_eq!(bucket_key("BTCUSDT", &t, "2m"), "BTCUSDT_2024_03_05_09_07_2m");
    let t = BucketTime { year: 2023, month: 12, day: 31, hour: 23, minute: 59 };
    assert_eq!(bucket_key("ETHUSDT", &t, "30m"), "ETHUSDT_2023_12_31_23_59_30m");
}

#[test]
fn output_key_layout() {
    assert_eq!(output_key("BTCUSDT", "2m"), "BTCUSDTklines2m");
    assert_eq!(output_key("ETHUSDT", "30m"), "ETHUSDTklines30m");
}

#[test]
fn keys_at_midnight_with_offset() {
    // 2024-03-04 22:00:30 UTC, two hours ahead: 2024-03-05 00:00
    let keys = bucket_keys("BTCUSDT", "2m", 3, 2, 1709589630).unwrap();
    assert_eq!(keys.len(), 3);
    assert_eq!(keys[0], "BTCUSDT_2024_03_05_00_00_2m");
    assert_eq!(keys[1], "BTCUSDT_2024_03_04_23_59_2m");
    assert_eq!(keys[2], "BTCUSDT_2024_03_04_23_58_2m");
}

#[test]
fn keys_roll_back_over_leap_day() {
    // 2024-02-29 22:00 UTC, two hours ahead: 2024-03-01 00:00
    let keys = bucket_keys("ETHUSDT", "30m", 2, 2, 1709244000).unwrap();
    assert_eq!(keys[0], "ETHUSDT_2024_03_01_00_00_30m");
    assert_eq!(keys[1], "ETHUSDT_2024_02_29_23_59_30m");
}

#[test]
fn keys_roll_back_over_new_year() {
    let keys = bucket_keys("BTCUSDT", "2m", 2, 2, 1704060000).unwrap();
    assert_eq!(keys[0], "BTCUSDT_2024_01_01_00_00_2m");
    assert_eq!(keys[1], "BTCUSDT_2023_12_31_23_59_2m");
}

#[test]
fn keys_without_offset() {
    let keys = bucket_keys("SOLUSDT", "2m", 1, 0, 1718446020).unwrap();
    assert_eq!(keys, vec!["SOLUSDT_2024_06_15_10_07_2m".to_string()]);
    let keys = bucket_keys("SOLUSDT", "2m", 1, 0, -60).unwrap();
    assert_eq!(keys[0], "SOLUSDT_1969_12_31_23_59_2m");
}

#[test]
fn keys_for_zero_buckets() {
    assert_eq!(bucket_keys("BTCUSDT", "2m", 0, 2, 1709589630), Some(vec![]));
}

#[test]
fn keys_out_of_range_instant() {
    assert_eq!(bucket_keys("BTCUSDT", "2m", 2, 2, i64::MAX), None);
}

#[test]
fn keys_repeat_for_same_instant() {
    let a = bucket_keys("BTCUSDT", "30m", 5, 2, 1709244000);
    let b = bucket_keys("BTCUSDT", "30m", 5, 2, 1709244000);
    assert_eq!(a, b);
    assert_eq!(a.unwrap()[4], "BTCUSDT_2024_02_29_23_56_30m");
}
