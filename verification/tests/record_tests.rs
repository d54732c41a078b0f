use talaria::record::{append_reversed, dates_strictly_increasing, Exchange, Record};

fn rec(date: u64) -> Record {
    Record { exchange: Exchange::Kucoin, date, open: 1, close: 2, high: 3, low: 0, volume: 4 }
}

#[test]
fn newest_first_chunks_become_chronological() {
    let mut records = Vec::new();
    append_reversed(&mut records, vec![rec(30), rec(20), rec(10)]);
    append_reversed(&mut records, vec![rec(60), rec(50), rec(40)]);
    let dates: Vec<u64> = records.iter().map(|r| r.date).collect();
    assert_eq!(dates, vec![10, 20, 30, 40, 50, 60]);
    assert!(dates_strictly_increasing(&records));
}

#[test]
fn ordering_check_rejects_repeats_and_zero() {
    assert!(dates_strictly_increasing(&vec![]));
    assert!(dates_strictly_increasing(&vec![rec(1), rec(2)]));
    assert!(!dates_strictly_increasing(&vec![rec(2), rec(2)]));
    assert!(!dates_strictly_increasing(&vec![rec(3), rec(1)]));
    assert!(!dates_strictly_increasing(&vec![rec(0)]));
}

#[test]
fn exchange_names() {
    assert_eq!(Exchange::Binance.name(), "binance");
    assert_eq!(Exchange::Coinbase.name(), "coinbase");
    assert_eq!(Exchange::Kraken.name(), "kraken");
    assert_eq!(Exchange::Kucoin.name(), "kucoin");
}

#[test]
fn confirm_kucoin_lines_ordered() {
    // Two download windows, each answered newest first.
    let mut records = Vec::new();
    append_reversed(&mut records, vec![rec(1_650_000_120), rec(1_650_000_060), rec(1_650_000_000)]);
    append_reversed(&mut records, vec![rec(1_650_000_240), rec(1_650_000_180)]);
    let mut previous_dt = 0;

    for record in records {
        println!("Previous Dt and current DT: {:?} {:?} ", previous_dt, record.date);
        assert!(record.date.gt(&previous_dt));
        previous_dt = record.date;
    }
}
