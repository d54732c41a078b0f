use talaria::market::{MarketAction, READING_SCALE};
use talaria::traders::fast_stochastic_oscillator::FSOTrader;
use talaria::traders::money_flow_index::MFITrader;
use talaria::traders::percentage_price_oscillator::PPOTrader;
use talaria::traders::relative_strength_index::RSITrader;
use talaria::traders::slow_stochastic_oscillator::SSOTrader;

#[test]
fn rsi_trader_refuses_zero_period() {
    assert_eq!(
        RSITrader::new(0).err(),
        Some("Invalid parameter: period for RSITrader must be greater than 0.")
    );
    assert_eq!(RSITrader::new(3).unwrap().description(), "RSI Trader");
}

#[test]
fn rsi_trader_waits_then_alternates() {
    let mut t = RSITrader::new(2).unwrap();
    let low = 25 * READING_SCALE;
    let high = 75 * READING_SCALE;
    assert_eq!(t.trade(Some(low)), None);
    assert_eq!(t.trade(Some(low)), None);
    assert_eq!(t.trade(None), None);
    assert_eq!(t.trade(Some(low)), Some(MarketAction::Buy));
    assert_eq!(t.trade(Some(low)), None);
    assert_eq!(t.trade(Some(50 * READING_SCALE)), None);
    assert_eq!(t.trade(Some(high)), Some(MarketAction::Sell));
    assert_eq!(t.trade(Some(high)), None);
    t.reset();
    assert_eq!(t.trade(Some(low)), None);
}

#[test]
fn thresholds_are_strict() {
    let mut t = RSITrader::new(1).unwrap();
    t.trade(None);
    assert_eq!(t.trade(Some(30 * READING_SCALE)), None);
    assert_eq!(t.trade(Some(30 * READING_SCALE - 1)), Some(MarketAction::Buy));
    assert_eq!(t.trade(Some(70 * READING_SCALE)), None);
    assert_eq!(t.trade(Some(70 * READING_SCALE + 1)), Some(MarketAction::Sell));
}

#[test]
fn stochastic_traders_use_80_and_20() {
    let mut f = FSOTrader::new(1).unwrap();
    assert_eq!(f.trade(10 * READING_SCALE), None);
    assert_eq!(f.trade(10 * READING_SCALE), Some(MarketAction::Buy));
    assert_eq!(f.trade(81 * READING_SCALE), Some(MarketAction::Sell));
    assert!(FSOTrader::new(0).is_err());

    let mut s = SSOTrader::default();
    assert_eq!(s.description(), "SSO Trader");
    for _ in 0..14 {
        assert_eq!(s.trade(0), None);
    }
    assert_eq!(s.trade(0), Some(MarketAction::Buy));
    assert_eq!(s.trade(90 * READING_SCALE), Some(MarketAction::Sell));
}

#[test]
fn ppo_trader_checks_periods_in_order() {
    assert_eq!(PPOTrader::new(0, 0, 0).err(), Some("Fast period must be greater than 0"));
    assert_eq!(PPOTrader::new(1, 0, 0).err(), Some("Slow period must be greater than 0"));
    assert_eq!(PPOTrader::new(1, 1, 0).err(), Some("Signal period must be greater than 0"));
    let mut p = PPOTrader::new(1, 2, 1).unwrap();
    assert_eq!(p.trade(5, 1), None);
    assert_eq!(p.trade(5, 1), None);
    assert_eq!(p.trade(5, 1), Some(MarketAction::Buy));
    assert_eq!(p.trade(1, 1), None);
    assert_eq!(p.trade(0, 1), Some(MarketAction::Sell));
}

#[test]
fn mfi_trader_never_acts() {
    assert_eq!(
        MFITrader::new(0).err(),
        Some("Invalid parameter: period for MFITrader must be greater than 0.")
    );
    let mut m = MFITrader::new(1).unwrap();
    for x in [-5, 0, 5, 100 * READING_SCALE] {
        assert_eq!(m.trade(x), None);
    }
    assert_eq!(m.description(), "MFI Trader");
}
