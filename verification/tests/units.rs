use node_connectivity::units::{BtcAmount, SATS_PER_BTC};

#[test]
fn one_bitcoin_is_a_hundred_million_satoshis() {
    assert_eq!(SATS_PER_BTC, 100_000_000);
    let one = BtcAmount::new(false, 1, 0).unwrap();
    assert_eq!(one.to_sats(), Some(100_000_000));
}

#[test]
fn whole_and_fraction_add_up() {
    let amount = BtcAmount::new(false, 2, 50_000_000).unwrap();
    assert_eq!(amount.to_sats(), Some(250_000_000));
    assert_eq!(amount.whole(), 2);
    assert_eq!(amount.frac(), 50_000_000);
    assert!(!amount.negative());
}

#[test]
fn zero_is_zero_satoshis() {
    let zero = BtcAmount::new(false, 0, 0).unwrap();
    assert_eq!(zero.to_sats(), Some(0));
}

#[test]
fn fraction_of_a_whole_bitcoin_is_refused() {
    assert!(BtcAmount::new(false, 0, 100_000_000).is_none());
    assert!(BtcAmount::new(false, 7, u32::MAX).is_none());
    assert!(BtcAmount::new(false, 0, 99_999_999).is_some());
}

#[test]
fn amount_below_zero_is_no_capacity() {
    let below = BtcAmount::new(true, 3, 1).unwrap();
    assert!(below.negative());
    assert_eq!(below.to_sats(), None);
    assert_eq!(BtcAmount::new(true, 0, 0).unwrap().to_sats(), None);
    assert_eq!(below.whole(), 3);
    assert_eq!(below.frac(), 1);
}

#[test]
fn amount_beyond_u64_is_no_capacity() {
    let huge = BtcAmount::new(false, u64::MAX, 0).unwrap();
    assert_eq!(huge.to_sats(), None);
    assert_eq!(huge.whole(), u64::MAX);
    // 184_467_440_737 bitcoin and 9_551_615 satoshis is exactly u64::MAX satoshis.
    let edge = BtcAmount::new(false, 184_467_440_737, 9_551_615).unwrap();
    assert_eq!(edge.to_sats(), Some(u64::MAX));
    let under = BtcAmount::new(false, 184_467_440_737, 9_551_614).unwrap();
    assert_eq!(under.to_sats(), Some(u64::MAX - 1));
    let over = BtcAmount::new(false, 184_467_440_737, 9_551_616).unwrap();
    assert_eq!(over.to_sats(), None);
    let next = BtcAmount::new(false, 184_467_440_738, 0).unwrap();
    assert_eq!(next.to_sats(), None);
}

#[test]
fn from_sats_splits_at_the_decimal_point() {
    let amount = BtcAmount::from_sats(123_456_789);
    assert_eq!(amount.whole(), 1);
    assert_eq!(amount.frac(), 23_456_789);
    assert!(!amount.negative());
    assert_eq!(amount, BtcAmount::new(false, 1, 23_456_789).unwrap());
}

#[test]
fn satoshis_survive_the_round_trip() {
    for sats in [0u64, 1, 99_999_999, 100_000_000, 100_000_001, 500_000_000, u64::MAX - 1, u64::MAX] {
        assert_eq!(BtcAmount::from_sats(sats).to_sats(), Some(sats));
    }
}

#[test]
fn largest_capacity_in_bitcoin() {
    let amount = BtcAmount::from_sats(u64::MAX);
    assert_eq!(amount.whole(), 184_467_440_737);
    assert_eq!(amount.frac(), 9_551_615);
}

#[test]
fn signed_satoshis() {
    let below = BtcAmount::from_signed_sats(true, 250_000_000);
    assert_eq!(below, BtcAmount::new(true, 2, 50_000_000).unwrap());
    let above = BtcAmount::from_signed_sats(false, 250_000_000);
    assert_eq!(above, BtcAmount::from_sats(250_000_000));
    assert_eq!(BtcAmount::from_signed_sats(true, 0), BtcAmount::new(true, 0, 0).unwrap());
}

#[test]
fn whole_bitcoins() {
    assert_eq!(BtcAmount::from_whole(false, 5), BtcAmount::new(false, 5, 0).unwrap());
    assert_eq!(BtcAmount::from_whole(true, 5), BtcAmount::new(true, 5, 0).unwrap());
    assert_eq!(BtcAmount::from_whole(false, 5).to_sats(), Some(500_000_000));
    assert_eq!(BtcAmount::from_whole(false, u64::MAX).to_sats(), None);
}
