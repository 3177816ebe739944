use kline_indicators::{chronological, split_symbols};

#[test]
fn sparse_fetch_keeps_present_buckets_oldest_first() {
    // thirty buckets read newest first; the value stands for the open time
    let mut reads: Vec<Option<i64>> = Vec::new();
    for minute in (1..=30).rev() {
        if minute == 4 || minute == 17 || minute == 29 {
            reads.push(None);
        } else {
            reads.push(Some(minute * 60));
        }
    }
    let series = chronological(reads);
    assert_eq!(series.len(), 27);
    for w in series.windows(2) {
        assert!(w[0] < w[1]);
    }
    assert_eq!(series[0], 60);
    assert_eq!(series[26], 1800);
    assert!(!series.contains(&(4 * 60)));
    assert!(!series.contains(&(17 * 60)));
    assert!(!series.contains(&(29 * 60)));
}

#[test]
fn chronological_reverses_full_reads() {
    let series = chronological(vec![Some(3), Some(2), Some(1)]);
    assert_eq!(series, vec![1, 2, 3]);
}

#[test]
fn chronological_of_nothing_present() {
    let series: Vec<u8> = chronological(vec![None, None]);
    assert!(series.is_empty());
    let series: Vec<u8> = chronological(vec![]);
    assert!(series.is_empty());
}

#[test]
fn symbols_split_on_hash() {
    assert_eq!(split_symbols("BTCUSDT#ETHUSDT#SOLUSDT"), vec!["BTCUSDT", "ETHUSDT", "SOLUSDT"]);
    assert_eq!(split_symbols("BTCUSDT"), vec!["BTCUSDT"]);
}

#[test]
fn symbols_keep_empty_fields() {
    assert_eq!(split_symbols(""), vec![""]);
    assert_eq!(split_symbols("A##B#"), vec!["A", "", "B", ""]);
}
