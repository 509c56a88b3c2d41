use surge::common::ExchangeError;
use surge::config::ConfigError;

#[test]
fn exchange_error_messages() {
    assert_eq!(ExchangeError::SkewTooHigh.message(), "Skew exceeds maximum");
    assert_eq!(ExchangeError::InsufficientMargin.message(), "Insufficient margin");
    assert_eq!(ExchangeError::InvalidFeeOath.message(), "Invalid fee oath");
}

#[test]
fn config_error_messages() {
    assert_eq!(ConfigError::MaxPriceAge.message(), "Invalid max price age");
    assert_eq!(ConfigError::LiquidityFeeRemove.message(), "Invalid liquidity fee");
    assert_eq!(ConfigError::CollateralMargin.message(), "Invalid margin");
}
